//! Gateway groups: the destinations that calls are spread over.

use crate::bytes::{be_value, from_be, lemma_be_value_bound, lemma_pow256};
use crate::error::{value_error, ErrorText, ScriptError};
use crate::ipsec::Transport;
use crate::hash::{md5_compute, md5_of};
use crate::net::{socket_of, socket_text, IpAddr, SocketAddr};
use crate::pyvalue::{
    as_string_map, as_text, as_u32, entries_text, entry, filter_of, find_entry, opt_items,
    to_string_map, PyText, PyValue,
};
use crate::text::{
    assoc, assoc_get, chars_of, contains_text, copy_pairs, decimal, decimal_text, find_char,
    find_char_in, has_prefix, has_text, lower, lowercase, occurs_at, opt_str, opt_text, pairs_text,
    same_text, starts_with, string_between, strip_prefix, texts, to_unicode_lower, truth, truth_text,
};
use vstd::prelude::*;
use vstd::string::*;
use vstd::utf8::{encode_utf8, is_ascii_chars};

verus! {

/// How a group spreads calls.
#[derive(Clone, Copy, Debug, PartialEq, Eq, Structural)]
pub enum Algorithm {
    RoundRobin,
    Weighted,
    Hash,
}

/// The algorithm that a name stands for; a name that is not known stands for
/// the weighted one.
pub open spec fn algorithm_named(name: Seq<char>) -> Algorithm {
    if name == "round_robin"@ {
        Algorithm::RoundRobin
    } else if name == "hash"@ {
        Algorithm::Hash
    } else {
        Algorithm::Weighted
    }
}

/// The algorithm that a name stands for, weighted by default.
pub fn parse_algorithm(name: &str) -> (r: Algorithm)
    ensures
        r == algorithm_named(name@),
{
    if same_text(name, "round_robin") {
        Algorithm::RoundRobin
    } else if same_text(name, "hash") {
        Algorithm::Hash
    } else {
        Algorithm::Weighted
    }
}

/// A destination of a group. `candidates` are all the addresses that its name
/// resolved to; `address` is the one in use.
#[derive(Debug, PartialEq)]
pub struct Destination {
    pub uri: String,
    pub address: SocketAddr,
    pub candidates: Vec<IpAddr>,
    pub transport: Transport,
    pub weight: u32,
    pub priority: u32,
    pub attrs: Vec<(String, String)>,
    pub healthy: bool,
}

/// A destination as mathematical data.
pub struct DestText {
    pub uri: Seq<char>,
    pub address: SocketAddr,
    pub candidates: Seq<IpAddr>,
    pub transport: Transport,
    pub weight: u32,
    pub priority: u32,
    pub attrs: Seq<(Seq<char>, Seq<char>)>,
    pub healthy: bool,
}

impl View for Destination {
    type V = DestText;

    open spec fn view(&self) -> DestText {
        DestText {
            uri: self.uri@,
            address: self.address,
            candidates: self.candidates@,
            transport: self.transport,
            weight: self.weight,
            priority: self.priority,
            attrs: pairs_text(self.attrs@),
            healthy: self.healthy,
        }
    }
}

/// A destination that has just been configured: healthy, with one address.
pub open spec fn new_destination(
    uri: Seq<char>,
    address: SocketAddr,
    transport: Transport,
    weight: u32,
    priority: u32,
    attrs: Seq<(Seq<char>, Seq<char>)>,
) -> DestText {
    DestText {
        uri,
        address,
        candidates: seq![address.ip],
        transport,
        weight,
        priority,
        attrs,
        healthy: true,
    }
}

impl Destination {
    pub fn new(uri: String, address: SocketAddr, transport: Transport, weight: u32, priority: u32) -> (r: Self)
        ensures
            r@ == new_destination(uri@, address, transport, weight, priority, Seq::empty()),
    {
        let r = Destination {
            uri,
            address,
            candidates: vec![address.ip],
            transport,
            weight,
            priority,
            attrs: Vec::new(),
            healthy: true,
        };
        assert(r@.attrs =~= Seq::<(Seq<char>, Seq<char>)>::empty());
        assert(r@.candidates =~= seq![address.ip]);
        r
    }

    pub fn with_attrs(self, attrs: Vec<(String, String)>) -> (r: Self)
        ensures
            r@ == (DestText { attrs: pairs_text(attrs@), ..self@ }),
    {
        Destination { attrs, ..self }
    }
}

/// The destinations of a list.
pub open spec fn dests_text(v: Seq<Destination>) -> Seq<DestText> {
    Seq::new(v.len(), |i: int| v[i]@)
}

/// A named group of destinations. `probe` says whether their health is probed.
#[derive(Debug, PartialEq)]
pub struct DispatcherGroup {
    pub name: String,
    pub algorithm: Algorithm,
    pub destinations: Vec<Destination>,
    pub probe: bool,
}

/// A group as mathematical data.
pub struct GroupText {
    pub name: Seq<char>,
    pub algorithm: Algorithm,
    pub destinations: Seq<DestText>,
    pub probe: bool,
}

impl View for DispatcherGroup {
    type V = GroupText;

    open spec fn view(&self) -> GroupText {
        GroupText {
            name: self.name@,
            algorithm: self.algorithm,
            destinations: dests_text(self.destinations@),
            probe: self.probe,
        }
    }
}

impl DispatcherGroup {
    /// A group whose health is probed.
    pub fn new(name: String, algorithm: Algorithm, destinations: Vec<Destination>) -> (r: Self)
        ensures
            r@ == (GroupText {
                name: name@,
                algorithm,
                destinations: dests_text(destinations@),
                probe: true,
            }),
    {
        DispatcherGroup { name, algorithm, destinations, probe: true }
    }

    pub fn with_probe(self, probe: bool) -> (r: Self)
        ensures
            r@ == (GroupText { probe, ..self@ }),
    {
        DispatcherGroup { probe, ..self }
    }
}

/// The groups of a list.
pub open spec fn groups_text(v: Seq<DispatcherGroup>) -> Seq<GroupText> {
    Seq::new(v.len(), |i: int| v[i]@)
}

/// The position of the group of that name; the number of groups if there is
/// none.
pub open spec fn group_index(groups: Seq<GroupText>, name: Seq<char>, from: int) -> int
    decreases groups.len() - from,
{
    if from < 0 || from >= groups.len() {
        groups.len() as int
    } else if groups[from].name == name {
        from
    } else {
        group_index(groups, name, from + 1)
    }
}

/// The group of that name.
pub open spec fn group_named(groups: Seq<GroupText>, name: Seq<char>) -> Option<GroupText> {
    let i = group_index(groups, name, 0);
    if 0 <= i < groups.len() {
        Some(groups[i])
    } else {
        None
    }
}

/// No two groups share a name.
pub open spec fn distinct_names(groups: Seq<GroupText>) -> bool {
    forall|i: int, j: int|
        0 <= i < j < groups.len() ==> (#[trigger] groups[i]).name != (#[trigger] groups[j]).name
}

/// The groups with one added: in place of the one of its name, else at the end.
pub open spec fn with_group(groups: Seq<GroupText>, group: GroupText) -> Seq<GroupText> {
    let i = group_index(groups, group.name, 0);
    if 0 <= i < groups.len() {
        groups.update(i, group)
    } else {
        groups.push(group)
    }
}

/// The groups without the one of that name.
pub open spec fn without_group(groups: Seq<GroupText>, name: Seq<char>) -> Seq<GroupText> {
    let i = group_index(groups, name, 0);
    if 0 <= i < groups.len() {
        groups.remove(i)
    } else {
        groups
    }
}

/// Every destination of that URI with the given health.
pub open spec fn marked(destinations: Seq<DestText>, uri: Seq<char>, healthy: bool) -> Seq<DestText> {
    Seq::new(
        destinations.len(),
        |i: int|
            if destinations[i].uri == uri {
                DestText { healthy, ..destinations[i] }
            } else {
                destinations[i]
            },
    )
}

pub open spec fn has_destination(destinations: Seq<DestText>, uri: Seq<char>) -> bool {
    exists|i: int| 0 <= i < destinations.len() && (#[trigger] destinations[i]).uri == uri
}

/// A group's health marks after a script set one.
pub open spec fn after_mark(groups: Seq<GroupText>, name: Seq<char>, uri: Seq<char>, healthy: bool) -> Seq<GroupText> {
    let i = group_index(groups, name, 0);
    if 0 <= i < groups.len() {
        groups.update(
            i,
            GroupText { destinations: marked(groups[i].destinations, uri, healthy), ..groups[i] },
        )
    } else {
        groups
    }
}

proof fn lemma_group_index(groups: Seq<GroupText>, name: Seq<char>, from: int)
    requires
        0 <= from <= groups.len(),
    ensures
        from <= group_index(groups, name, from) <= groups.len(),
        group_index(groups, name, from) < groups.len() ==> groups[group_index(groups, name, from)].name
            == name,
        forall|k: int|
            from <= k < group_index(groups, name, from) ==> (#[trigger] groups[k]).name != name,
    decreases groups.len() - from,
{
    if from < groups.len() && groups[from].name != name {
        lemma_group_index(groups, name, from + 1);
    }
}

proof fn lemma_group_index_is(groups: Seq<GroupText>, name: Seq<char>, from: int, at: int)
    requires
        0 <= from <= at <= groups.len(),
        at < groups.len() ==> groups[at].name == name,
        forall|k: int| from <= k < at ==> (#[trigger] groups[k]).name != name,
    ensures
        group_index(groups, name, from) == at,
    decreases at - from,
{
    if from < at {
        lemma_group_index_is(groups, name, from + 1, at);
    }
}

/// A group that was added is the one that its name finds, and names stay
/// distinct.
pub proof fn added_group_is_found(groups: Seq<GroupText>, group: GroupText)
    requires
        distinct_names(groups),
    ensures
        group_named(with_group(groups, group), group.name) == Some(group),
        distinct_names(with_group(groups, group)),
{
    let i = group_index(groups, group.name, 0);
    let after = with_group(groups, group);
    lemma_group_index(groups, group.name, 0);
    assert forall|k: int| 0 <= k < i implies (#[trigger] after[k]).name != group.name by {
        assert(after[k] == groups[k]);
    }
    lemma_group_index_is(after, group.name, 0, i);
    assert forall|a: int, b: int| 0 <= a < b < after.len() implies (#[trigger] after[a]).name != (
    #[trigger] after[b]).name by {
        if i < groups.len() {
            assert(groups[a].name != groups[b].name);
        } else if b < groups.len() {
            assert(groups[a].name != groups[b].name);
        }
    }
}

/// A group that was removed is not found again.
pub proof fn removed_group_is_gone(groups: Seq<GroupText>, name: Seq<char>)
    requires
        distinct_names(groups),
    ensures
        group_named(without_group(groups, name), name) is None,
        distinct_names(without_group(groups, name)),
{
    let i = group_index(groups, name, 0);
    let after = without_group(groups, name);
    lemma_group_index(groups, name, 0);
    assert forall|k: int| 0 <= k < after.len() implies (#[trigger] after[k]).name != name by {
        if i < groups.len() {
            if k < i {
                assert(after[k] == groups[k]);
            } else {
                assert(after[k] == groups[k + 1]);
                assert(groups[i].name != groups[k + 1].name);
            }
        }
    }
    lemma_group_index_is(after, name, 0, after.len() as int);
    assert forall|a: int, b: int| 0 <= a < b < after.len() implies (#[trigger] after[a]).name != (
    #[trigger] after[b]).name by {
        if i < groups.len() {
            let x = if a < i {
                a
            } else {
                a + 1
            };
            let y = if b < i {
                b
            } else {
                b + 1
            };
            assert(groups[x].name != groups[y].name);
        } else {
            assert(groups[a].name != groups[b].name);
        }
    }
}

/// Marking a destination down and up again leaves it healthy, and touches no
/// other destination.
pub proof fn mark_up_undoes_mark_down(destinations: Seq<DestText>, uri: Seq<char>)
    requires
        forall|i: int|
            0 <= i < destinations.len() && (#[trigger] destinations[i]).uri == uri
                ==> destinations[i].healthy,
    ensures
        marked(marked(destinations, uri, false), uri, true) == destinations,
        forall|i: int|
            0 <= i < destinations.len() && (#[trigger] destinations[i]).uri != uri ==> marked(
                destinations,
                uri,
                false,
            )[i] == destinations[i],
{
    assert(marked(marked(destinations, uri, false), uri, true) =~= destinations);
}

/// The URI of a destination with its transport: a destination that is not on
/// UDP gets a transport parameter where its URI names none.
pub open spec fn routed_uri(uri: Seq<char>, transport: Transport) -> Seq<char> {
    if transport != Transport::Udp && !contains_text(lowercase(uri), ";transport="@) {
        uri + transport_param(transport)
    } else {
        uri
    }
}

pub open spec fn transport_param(transport: Transport) -> Seq<char> {
    match transport {
        Transport::Udp => ""@,
        Transport::Tcp => ";transport=tcp"@,
        Transport::Tls => ";transport=tls"@,
        Transport::Ws => ";transport=ws"@,
        Transport::Wss => ";transport=wss"@,
        Transport::Sctp => ";transport=sctp"@,
    }
}

/// What a script sees of a destination.
pub struct PyDestination {
    uri: String,
    address: String,
    healthy: bool,
    weight: u32,
    priority: u32,
    attrs: Vec<(String, String)>,
}

/// What a script sees of a destination, as mathematical data.
pub struct ShownText {
    pub uri: Seq<char>,
    pub address: Seq<char>,
    pub healthy: bool,
    pub weight: u32,
    pub priority: u32,
    pub attrs: Seq<(Seq<char>, Seq<char>)>,
}

impl View for PyDestination {
    type V = ShownText;

    closed spec fn view(&self) -> ShownText {
        ShownText {
            uri: self.uri@,
            address: self.address@,
            healthy: self.healthy,
            weight: self.weight,
            priority: self.priority,
            attrs: pairs_text(self.attrs@),
        }
    }
}

/// What a script sees of a destination.
pub open spec fn shown(dest: DestText) -> ShownText {
    ShownText {
        uri: routed_uri(dest.uri, dest.transport),
        address: socket_text(dest.address),
        healthy: dest.healthy,
        weight: dest.weight,
        priority: dest.priority,
        attrs: dest.attrs,
    }
}

impl PyDestination {
    pub fn new(
        uri: String,
        address: String,
        healthy: bool,
        weight: u32,
        priority: u32,
        attrs: Vec<(String, String)>,
    ) -> (r: Self)
        ensures
            r@ == (ShownText {
                uri: uri@,
                address: address@,
                healthy,
                weight,
                priority,
                attrs: pairs_text(attrs@),
            }),
    {
        PyDestination { uri, address, healthy, weight, priority, attrs }
    }

    pub fn from_destination(dest: &Destination) -> (r: Self)
        ensures
            r@ == shown(dest@),
    {
        let param = match dest.transport {
            Transport::Udp => "",
            Transport::Tcp => ";transport=tcp",
            Transport::Tls => ";transport=tls",
            Transport::Ws => ";transport=ws",
            Transport::Wss => ";transport=wss",
            Transport::Sctp => ";transport=sctp",
        };
        let uri = if dest.transport != Transport::Udp && !has_text(
            &to_unicode_lower(&dest.uri),
            ";transport=",
        ) {
            dest.uri.clone().concat(param)
        } else {
            dest.uri.clone()
        };
        PyDestination {
            uri,
            address: dest.address.render(),
            healthy: dest.healthy,
            weight: dest.weight,
            priority: dest.priority,
            attrs: copy_pairs(&dest.attrs),
        }
    }

    pub fn uri(&self) -> (r: &str)
        ensures
            r@ == self@.uri,
    {
        self.uri.as_str()
    }

    pub fn address(&self) -> (r: &str)
        ensures
            r@ == self@.address,
    {
        self.address.as_str()
    }

    pub fn healthy(&self) -> (r: bool)
        ensures
            r == self@.healthy,
    {
        self.healthy
    }

    pub fn weight(&self) -> (r: u32)
        ensures
            r == self@.weight,
    {
        self.weight
    }

    pub fn priority(&self) -> (r: u32)
        ensures
            r == self@.priority,
    {
        self.priority
    }

    /// The value of an attribute.
    pub fn attr(&self, name: &str) -> (r: Option<String>)
        ensures
            opt_text(r) == assoc(self@.attrs, name@),
    {
        assoc_get(&self.attrs, name)
    }

    pub fn __str__(&self) -> (r: &str)
        ensures
            r@ == self@.uri,
    {
        self.uri.as_str()
    }

    pub fn __repr__(&self) -> (r: String)
        ensures
            r@ == "Destination(uri="@ + self@.uri + ", healthy="@ + truth(self@.healthy)
                + ", weight="@ + decimal(self@.weight as nat) + ", priority="@ + decimal(
                self@.priority as nat,
            ) + ")"@,
    {
        "Destination(uri=".to_owned().concat(&self.uri).concat(", healthy=").concat(
            &truth_text(self.healthy),
        ).concat(", weight=").concat(&decimal_text(self.weight as u64)).concat(", priority=").concat(
            &decimal_text(self.priority as u64),
        ).concat(")")
    }

    /// A destination counts as true while it is healthy.
    pub fn __bool__(&self) -> (r: bool)
        ensures
            r == self@.healthy,
    {
        self.healthy
    }
}

/// A URI that carries its transport already is routed as it is written.
pub proof fn routed_uri_is_stable(uri: Seq<char>, transport: Transport)
    requires
        is_ascii_chars(uri),
    ensures
        routed_uri(routed_uri(uri, transport), transport) == routed_uri(uri, transport),
{
    let once = routed_uri(uri, transport);
    if transport != Transport::Udp && !contains_text(lowercase(uri), ";transport="@) {
        let param = transport_param(transport);
        reveal_strlit(";transport=");
        reveal_strlit(";transport=tcp");
        reveal_strlit(";transport=tls");
        reveal_strlit(";transport=ws");
        reveal_strlit(";transport=wss");
        reveal_strlit(";transport=sctp");
        assert(is_ascii_chars(once)) by {
            assert forall|i: int| 0 <= i < once.len() implies (once[i] as u32) < 128 by {
                if i >= uri.len() {
                    assert(once[i] == param[i - uri.len()]);
                }
            }
        }
        let low = lower(once);
        assert(low.subrange(uri.len() as int, uri.len() as int + 11) =~= ";transport="@) by {
            assert forall|k: int| 0 <= k < 11 implies low[uri.len() as int + k] == ";transport="@[k] by {
                assert(once[uri.len() as int + k] == param[k]);
            }
        }
        assert(occurs_at(low, ";transport="@, uri.len() as int));
    }
}

/// What came of looking an address up: the text that was looked up, and the
/// address or the reason why there is none.
pub struct Lookup {
    pub text: String,
    pub outcome: Result<SocketAddr, String>,
}

/// What a script asks for as a destination: its dict, and what came of looking
/// its address up.
pub struct Requested {
    pub dict: Vec<(String, PyValue)>,
    pub lookup: Lookup,
}

/// A requested destination as mathematical data.
pub struct RequestedText {
    pub dict: Seq<(Seq<char>, PyText)>,
    pub looked_up: Seq<char>,
    pub outcome: Result<SocketAddr, Seq<char>>,
}

impl View for Requested {
    type V = RequestedText;

    open spec fn view(&self) -> RequestedText {
        RequestedText {
            dict: entries_text(self.dict@),
            looked_up: self.lookup.text@,
            outcome: match self.lookup.outcome {
                Ok(addr) => Ok(addr),
                Err(reason) => Err(reason@),
            },
        }
    }
}

/// The texts of a list of requested destinations.
pub open spec fn requests_text(v: Seq<Requested>) -> Seq<RequestedText> {
    Seq::new(v.len(), |i: int| v[i]@)
}

/// A number under a key; one where there is none.
pub open spec fn number_or_one(d: Seq<(Seq<char>, PyText)>, key: Seq<char>) -> Result<int, ErrorText> {
    match entry(d, key) {
        Some(value) => as_u32(value),
        None => Ok(1),
    }
}

/// The transport that a name stands for; UDP for a name that is not known.
pub open spec fn transport_named(name: Seq<char>) -> Transport {
    if name == "tcp"@ {
        Transport::Tcp
    } else if name == "tls"@ {
        Transport::Tls
    } else {
        Transport::Udp
    }
}

/// A URI without its scheme.
pub open spec fn without_scheme(uri: Seq<char>) -> Seq<char> {
    if starts_with(uri, "sips:"@) {
        uri.skip("sips:"@.len() as int)
    } else if starts_with(uri, "sip:"@) {
        uri.skip("sip:"@.len() as int)
    } else {
        uri
    }
}

/// What stands behind the first `@`, or the whole text.
pub open spec fn after_at(s: Seq<char>) -> Seq<char> {
    let at = find_char(s, '@', 0);
    if 0 <= at < s.len() {
        s.skip(at + 1)
    } else {
        s
    }
}

/// The host and port of a URI: behind the scheme and the user, before the
/// parameters and the headers.
pub open spec fn host_port(uri: Seq<char>) -> Seq<char> {
    let s = after_at(without_scheme(uri));
    let bare = s.take(find_char(s, ';', 0));
    bare.take(find_char(bare, '?', 0))
}

/// Whether a host has a port behind it. The colons of an IPv6 address in
/// brackets do not count.
pub open spec fn has_port(s: Seq<char>) -> bool {
    let close = find_char(s, ']', 0);
    let from = if close < s.len() {
        close
    } else {
        0
    };
    find_char(s, ':', from) < s.len()
}

/// The address that a URI leads to: its host and port, with the port of its
/// scheme where it has none.
pub open spec fn uri_address(uri: Seq<char>) -> Seq<char> {
    let s = host_port(uri);
    if has_port(s) {
        s
    } else if starts_with(uri, "sips:"@) {
        s + ":5061"@
    } else {
        s + ":5060"@
    }
}

/// The text that is looked up for a destination: its address where its dict
/// gives one, else the address that its URI leads to.
pub open spec fn address_text(d: Seq<(Seq<char>, PyText)>, uri: Seq<char>) -> Result<
    Seq<char>,
    ErrorText,
> {
    match entry(d, "address"@) {
        Some(value) => as_text(value),
        None => Ok(uri_address(uri)),
    }
}

/// The address behind a text: the one that it spells out, else what looking it
/// up brought.
pub open spec fn resolved(r: RequestedText, text: Seq<char>) -> Result<SocketAddr, Seq<char>> {
    match socket_of(text) {
        Some(address) => Ok(address),
        None => if r.looked_up == text {
            r.outcome
        } else {
            Err("not looked up"@)
        },
    }
}

/// The destination that a dict describes. Only the URI is required.
pub open spec fn destination_of(r: RequestedText) -> Result<DestText, ErrorText> {
    let d = r.dict;
    match entry(d, "uri"@) {
        None => Err(value_error("destination dict must have 'uri' key"@)),
        Some(uri) => match as_text(uri) {
            Err(e) => Err(e),
            Ok(uri) => match address_text(d, uri) {
                Err(e) => Err(e),
                Ok(text) => match resolved(r, text) {
                    Err(reason) => Err(
                        value_error("cannot resolve address '"@ + text + "': "@ + reason),
                    ),
                    Ok(address) => described(d, uri, address),
                },
            },
        },
    }
}

/// The destination that a dict describes, once its address is known.
pub open spec fn described(d: Seq<(Seq<char>, PyText)>, uri: Seq<char>, address: SocketAddr) -> Result<
    DestText,
    ErrorText,
> {
    match number_or_one(d, "weight"@) {
        Err(e) => Err(e),
        Ok(weight) => match number_or_one(d, "priority"@) {
            Err(e) => Err(e),
            Ok(priority) => {
                let transport = match entry(d, "transport"@) {
                    Some(value) => as_text(value),
                    None => Ok("udp"@),
                };
                match transport {
                    Err(e) => Err(e),
                    Ok(transport) => {
                        let attrs = match entry(d, "attrs"@) {
                            Some(value) => as_string_map(value),
                            None => Ok(Seq::empty()),
                        };
                        match attrs {
                            Err(e) => Err(e),
                            Ok(attrs) => Ok(
                                new_destination(
                                    uri,
                                    address,
                                    transport_named(transport),
                                    weight as u32,
                                    priority as u32,
                                    attrs,
                                ),
                            ),
                        }
                    },
                }
            },
        },
    }
}

/// The destinations that dicts describe; the error of the first that fails.
pub open spec fn destinations_of(v: Seq<RequestedText>) -> Result<Seq<DestText>, ErrorText>
    decreases v.len(),
{
    if v.len() == 0 {
        Ok(Seq::empty())
    } else {
        match destinations_of(v.drop_last()) {
            Err(e) => Err(e),
            Ok(before) => match destination_of(v.last()) {
                Err(e) => Err(e),
                Ok(dest) => Ok(before.push(dest)),
            },
        }
    }
}

proof fn lemma_destinations_error(v: Seq<RequestedText>, n: int)
    requires
        0 <= n <= v.len(),
        destinations_of(v.take(n)) is Err,
    ensures
        destinations_of(v) == destinations_of(v.take(n)),
    decreases v.len() - n,
{
    if n == v.len() {
        assert(v.take(n) =~= v);
    } else {
        assert(v.take(n + 1).drop_last() =~= v.take(n));
        lemma_destinations_error(v, n + 1);
    }
}

fn number_under(dict: &Vec<(String, PyValue)>, key: &str) -> (r: Result<u32, ScriptError>)
    ensures
        match r {
            Ok(n) => number_or_one(entries_text(dict@), key@) == Ok::<int, ErrorText>(n as int),
            Err(e) => number_or_one(entries_text(dict@), key@) == Err::<int, ErrorText>(e@),
        },
{
    match find_entry(dict, key) {
        Some(value) => value.as_u32(),
        None => Ok(1),
    }
}

/// Finds the host and port of a URI.
fn read_host_port(uri: &str) -> (r: String)
    ensures
        r@ == host_port(uri@),
{
    let rest = match strip_prefix(uri, "sips:") {
        Some(rest) => rest,
        None => match strip_prefix(uri, "sip:") {
            Some(rest) => rest,
            None => uri.to_owned(),
        },
    };
    assert(rest@ == without_scheme(uri@));
    let chars = chars_of(&rest);
    let at = find_char_in(&chars, '@', 0);
    let from: usize = if at < chars.len() {
        at + 1
    } else {
        0
    };
    let host = string_between(&chars, from, chars.len());
    assert(host@ =~= after_at(rest@));
    let host_chars = chars_of(&host);
    let bare = string_between(&host_chars, 0, find_char_in(&host_chars, ';', 0));
    assert(bare@ =~= host@.take(find_char(host@, ';', 0)));
    let bare_chars = chars_of(&bare);
    let out = string_between(&bare_chars, 0, find_char_in(&bare_chars, '?', 0));
    assert(out@ =~= bare@.take(find_char(bare@, '?', 0)));
    out
}

/// The address that a URI leads to: its host and port, with the port of its
/// scheme where it has none.
pub fn extract_address_from_uri(uri: &str) -> (r: String)
    ensures
        r@ == uri_address(uri@),
{
    let host = read_host_port(uri);
    let chars = chars_of(&host);
    let close = find_char_in(&chars, ']', 0);
    let from: usize = if close < chars.len() {
        close
    } else {
        0
    };
    if find_char_in(&chars, ':', from) < chars.len() {
        host
    } else if has_prefix(uri, "sips:") {
        host.concat(":5061")
    } else {
        host.concat(":5060")
    }
}

/// The text that has to be looked up for a destination; `None` where it spells
/// an address out, and where its dict is malformed.
pub fn lookup_text(dict: &Vec<(String, PyValue)>) -> (r: Option<String>)
    ensures
        opt_text(r) == match entry(entries_text(dict@), "uri"@) {
            Some(PyText::Text(uri)) => match address_text(entries_text(dict@), uri) {
                Ok(text) => if socket_of(text) is None {
                    Some(text)
                } else {
                    None
                },
                Err(_) => None,
            },
            _ => None,
        },
{
    let text = match find_entry(dict, "uri") {
        Some(PyValue::Text(uri)) => match find_entry(dict, "address") {
            Some(value) => match value.as_text() {
                Ok(text) => text,
                Err(_) => {
                    return None;
                },
            },
            None => extract_address_from_uri(uri),
        },
        _ => {
            return None;
        },
    };
    if SocketAddr::parse(&text).is_some() {
        None
    } else {
        Some(text)
    }
}

/// The address behind a text.
fn resolve_address(requested: &Requested, text: &str) -> (r: Result<SocketAddr, String>)
    ensures
        match r {
            Ok(address) => resolved(requested@, text@) == Ok::<SocketAddr, Seq<char>>(address),
            Err(reason) => resolved(requested@, text@) == Err::<SocketAddr, Seq<char>>(reason@),
        },
{
    match SocketAddr::parse(text) {
        Some(address) => Ok(address),
        None => if same_text(&requested.lookup.text, text) {
            match &requested.lookup.outcome {
                Ok(address) => Ok(*address),
                Err(reason) => Err(reason.clone()),
            }
        } else {
            Err("not looked up".to_owned())
        },
    }
}

fn read_destination(requested: &Requested) -> (r: Result<Destination, ScriptError>)
    ensures
        match r {
            Ok(dest) => destination_of(requested@) == Ok::<DestText, ErrorText>(dest@),
            Err(e) => destination_of(requested@) == Err::<DestText, ErrorText>(e@),
        },
{
    let dict = &requested.dict;
    let uri = match find_entry(dict, "uri") {
        Some(value) => match value.as_text() {
            Ok(uri) => uri,
            Err(e) => {
                return Err(e);
            },
        },
        None => {
            return Err(ScriptError::value("destination dict must have 'uri' key".to_owned()));
        },
    };
    let text = match find_entry(dict, "address") {
        Some(value) => match value.as_text() {
            Ok(text) => text,
            Err(e) => {
                return Err(e);
            },
        },
        None => extract_address_from_uri(&uri),
    };
    let address = match resolve_address(requested, &text) {
        Ok(address) => address,
        Err(reason) => {
            return Err(
                ScriptError::value(
                    "cannot resolve address '".to_owned().concat(&text).concat("': ").concat(&reason),
                ),
            );
        },
    };
    let weight: u32 = match number_under(dict, "weight") {
        Ok(weight) => weight,
        Err(e) => {
            return Err(e);
        },
    };
    let priority: u32 = match number_under(dict, "priority") {
        Ok(priority) => priority,
        Err(e) => {
            return Err(e);
        },
    };
    let name = match find_entry(dict, "transport") {
        Some(value) => match value.as_text() {
            Ok(name) => name,
            Err(e) => {
                return Err(e);
            },
        },
        None => "udp".to_owned(),
    };
    let transport = if same_text(&name, "tcp") {
        Transport::Tcp
    } else if same_text(&name, "tls") {
        Transport::Tls
    } else {
        Transport::Udp
    };
    let attrs = match find_entry(dict, "attrs") {
        Some(value) => match value.as_string_map() {
            Ok(attrs) => attrs,
            Err(e) => {
                return Err(e);
            },
        },
        None => {
            let none: Vec<(String, String)> = Vec::new();
            assert(pairs_text(none@) =~= Seq::<(Seq<char>, Seq<char>)>::empty());
            none
        },
    };
    Ok(Destination::new(uri, address, transport, weight, priority).with_attrs(attrs))
}

/// Whether attributes carry every pair of a filter.
pub open spec fn attrs_match(attrs: Seq<(Seq<char>, Seq<char>)>, filter: Seq<(Seq<char>, Seq<char>)>) -> bool {
    forall|i: int| 0 <= i < filter.len() ==> assoc(attrs, (#[trigger] filter[i]).0) == Some(filter[i].1)
}

/// A destination that a selection may take: healthy, and matching the filter.
pub open spec fn usable(dest: DestText, filter: Seq<(Seq<char>, Seq<char>)>) -> bool {
    dest.healthy && attrs_match(dest.attrs, filter)
}

/// A usable destination that no usable destination of the group precedes in
/// priority. A lower number means a higher priority.
pub open spec fn eligible(destinations: Seq<DestText>, filter: Seq<(Seq<char>, Seq<char>)>, at: int) -> bool {
    &&& 0 <= at < destinations.len()
    &&& usable(destinations[at], filter)
    &&& forall|k: int|
        0 <= k < destinations.len() && usable(#[trigger] destinations[k], filter)
            ==> destinations[at].priority <= destinations[k].priority
}

/// The positions of the eligible destinations among the first `n`.
pub open spec fn eligible_among(
    destinations: Seq<DestText>,
    filter: Seq<(Seq<char>, Seq<char>)>,
    n: int,
) -> Seq<int>
    decreases n,
{
    if n <= 0 {
        Seq::empty()
    } else {
        let before = eligible_among(destinations, filter, n - 1);
        if eligible(destinations, filter, n - 1) {
            before.push(n - 1)
        } else {
            before
        }
    }
}

/// The positions of the destinations that a selection may take.
pub open spec fn choices(destinations: Seq<DestText>, filter: Seq<(Seq<char>, Seq<char>)>) -> Seq<int> {
    eligible_among(destinations, filter, destinations.len() as int)
}

proof fn lemma_eligible_among(destinations: Seq<DestText>, filter: Seq<(Seq<char>, Seq<char>)>, n: int)
    requires
        0 <= n <= destinations.len(),
    ensures
        forall|k: int|
            0 <= k < eligible_among(destinations, filter, n).len() ==> eligible(
                destinations,
                filter,
                #[trigger] eligible_among(destinations, filter, n)[k],
            ) && eligible_among(destinations, filter, n)[k] < n,
        forall|at: int|
            0 <= at < n && eligible(destinations, filter, at) ==> eligible_among(
                destinations,
                filter,
                n,
            ).contains(at),
    decreases n,
{
    if n > 0 {
        lemma_eligible_among(destinations, filter, n - 1);
        let before = eligible_among(destinations, filter, n - 1);
        let now = eligible_among(destinations, filter, n);
        assert forall|at: int| 0 <= at < n && eligible(destinations, filter, at) implies now.contains(
            at,
        ) by {
            if at == n - 1 {
                assert(now[now.len() - 1] == at);
            } else {
                let k = choose|k: int| 0 <= k < before.len() && before[k] == at;
                assert(now[k] == at);
            }
        }
    }
}

/// A selection takes only healthy destinations that match, of the best
/// priority that such a destination has.
pub proof fn choice_is_healthy_and_matches(
    destinations: Seq<DestText>,
    filter: Seq<(Seq<char>, Seq<char>)>,
    k: int,
    other: int,
)
    requires
        0 <= k < choices(destinations, filter).len(),
        0 <= other < destinations.len(),
    ensures
        ({
            let dest = destinations[choices(destinations, filter)[k]];
            &&& dest.healthy
            &&& attrs_match(dest.attrs, filter)
            &&& usable(destinations[other], filter) ==> dest.priority
                <= destinations[other].priority
        }),
{
    lemma_eligible_among(destinations, filter, destinations.len() as int);
    assert(eligible(destinations, filter, choices(destinations, filter)[k]));
}

/// A selection finds a destination wherever one is healthy and matches.
pub proof fn usable_destination_is_chosen(
    destinations: Seq<DestText>,
    filter: Seq<(Seq<char>, Seq<char>)>,
    at: int,
)
    requires
        0 <= at < destinations.len(),
        usable(destinations[at], filter),
    ensures
        choices(destinations, filter).len() > 0,
{
    let best = lemma_best(destinations, filter, at, destinations.len() as int);
    lemma_eligible_among(destinations, filter, destinations.len() as int);
    assert(eligible(destinations, filter, best));
    assert(choices(destinations, filter).contains(best));
}

proof fn lemma_best(
    destinations: Seq<DestText>,
    filter: Seq<(Seq<char>, Seq<char>)>,
    at: int,
    n: int,
) -> (best: int)
    requires
        0 <= at < destinations.len(),
        usable(destinations[at], filter),
        0 <= n <= destinations.len(),
    ensures
        0 <= best < destinations.len(),
        usable(destinations[best], filter),
        destinations[best].priority <= destinations[at].priority,
        forall|k: int|
            0 <= k < n && usable(#[trigger] destinations[k], filter) ==> destinations[best].priority
                <= destinations[k].priority,
    decreases n,
{
    if n == 0 {
        at
    } else {
        let before = lemma_best(destinations, filter, at, n - 1);
        if usable(destinations[n - 1], filter) && destinations[n - 1].priority
            < destinations[before].priority {
            n - 1
        } else {
            before
        }
    }
}

fn matches_filter(attrs: &Vec<(String, String)>, filter: &Vec<(String, String)>) -> (r: bool)
    ensures
        r == attrs_match(pairs_text(attrs@), pairs_text(filter@)),
{
    let ghost wanted = pairs_text(filter@);
    let mut i: usize = 0;
    while i < filter.len()
        invariant
            i <= filter@.len(),
            wanted == pairs_text(filter@),
            forall|k: int|
                0 <= k < i ==> assoc(pairs_text(attrs@), (#[trigger] wanted[k]).0) == Some(
                    wanted[k].1,
                ),
        decreases filter@.len() - i,
    {
        assert(wanted[i as int] == (filter@[i as int].0@, filter@[i as int].1@));
        let found = match assoc_get(attrs, &filter[i].0) {
            Some(value) => same_text(&value, &filter[i].1),
            None => false,
        };
        if !found {
            return false;
        }
        i += 1;
    }
    true
}

fn eligible_positions(destinations: &Vec<Destination>, filter: &Vec<(String, String)>) -> (r: Vec<usize>)
    ensures
        r@.len() == choices(dests_text(destinations@), pairs_text(filter@)).len(),
        forall|k: int|
            0 <= k < r@.len() ==> (#[trigger] r@[k]) as int == choices(
                dests_text(destinations@),
                pairs_text(filter@),
            )[k] && r@[k] < destinations@.len(),
{
    let ghost all = dests_text(destinations@);
    let ghost wanted = pairs_text(filter@);
    let mut best: Option<u32> = None;
    let mut i: usize = 0;
    while i < destinations.len()
        invariant
            i <= destinations@.len(),
            all == dests_text(destinations@),
            wanted == pairs_text(filter@),
            match best {
                Some(p) => (exists|k: int|
                    0 <= k < i && usable(#[trigger] all[k], wanted) && all[k].priority == p)
                    && forall|k: int|
                    0 <= k < i && usable(#[trigger] all[k], wanted) ==> p <= all[k].priority,
                None => forall|k: int| 0 <= k < i ==> !usable(#[trigger] all[k], wanted),
            },
        decreases destinations@.len() - i,
    {
        assert(all[i as int] == destinations@[i as int]@);
        if destinations[i].healthy && matches_filter(&destinations[i].attrs, filter) {
            assert(usable(all[i as int], wanted));
            best = match best {
                Some(p) => if destinations[i].priority < p {
                    Some(destinations[i].priority)
                } else {
                    Some(p)
                },
                None => Some(destinations[i].priority),
            };
        }
        i += 1;
    }
    let mut out: Vec<usize> = Vec::new();
    let mut at: usize = 0;
    while at < destinations.len()
        invariant
            at <= destinations@.len(),
            all == dests_text(destinations@),
            all.len() == destinations@.len(),
            wanted == pairs_text(filter@),
            match best {
                Some(p) => (exists|k: int|
                    0 <= k < all.len() && usable(#[trigger] all[k], wanted) && all[k].priority == p)
                    && forall|k: int|
                    0 <= k < all.len() && usable(#[trigger] all[k], wanted) ==> p
                        <= all[k].priority,
                None => forall|k: int| 0 <= k < all.len() ==> !usable(#[trigger] all[k], wanted),
            },
            out@.len() == eligible_among(all, wanted, at as int).len(),
            forall|k: int|
                0 <= k < out@.len() ==> (#[trigger] out@[k]) as int == eligible_among(
                    all,
                    wanted,
                    at as int,
                )[k] && out@[k] < destinations@.len(),
        decreases destinations@.len() - at,
    {
        assert(all[at as int] == destinations@[at as int]@);
        let take = match best {
            Some(p) => destinations[at].priority == p && destinations[at].healthy && matches_filter(
                &destinations[at].attrs,
                filter,
            ),
            None => false,
        };
        assert(take == eligible(all, wanted, at as int)) by {
            if eligible(all, wanted, at as int) {
                assert(usable(all[at as int], wanted));
            }
        }
        if take {
            out.push(at);
        }
        at += 1;
    }
    out
}

/// The gateway groups that scripts see.
pub struct PyGateway {
    groups: Vec<DispatcherGroup>,
}

impl View for PyGateway {
    type V = Seq<GroupText>;

    closed spec fn view(&self) -> Seq<GroupText> {
        groups_text(self.groups@)
    }
}

/// The number that a key stands for: the first eight bytes of its MD5 digest.
pub open spec fn key_number(key: Seq<char>) -> u64 {
    be_value(md5_of(encode_utf8(key)).take(8)) as u64
}

/// The number that a key stands for. It depends on the key alone.
pub fn number_of_key(key: &str) -> (r: u64)
    ensures
        r == key_number(key@),
{
    let digest = md5_compute(key.as_bytes());
    proof {
        lemma_be_value_bound(digest@.take(8));
        lemma_pow256();
    }
    from_be(digest.as_slice(), 8)
}

/// The sum of the first `k` weights.
pub open spec fn weight_before(weights: Seq<u32>, k: int) -> int
    decreases k,
{
    if k <= 0 {
        0
    } else {
        weight_before(weights, k - 1) + weights[k - 1] as int
    }
}

/// The place, at `from` or behind it, whose band of weights holds a point.
pub open spec fn band_of(weights: Seq<u32>, point: int, from: int) -> int
    decreases weights.len() - from,
{
    if from < 0 || from >= weights.len() {
        0
    } else if point < weight_before(weights, from + 1) {
        from
    } else {
        band_of(weights, point, from + 1)
    }
}

/// Which of the eligible destinations, given by their weights, a group picks. A
/// hash group goes by the number of the key; where there is no key, and in the
/// other groups, the draw decides: over the bands of the weights in a weighted
/// group, in turn in a round-robin one.
pub open spec fn picked(algorithm: Algorithm, weights: Seq<u32>, key: Option<u64>, draw: u64) -> int {
    let n = weights.len() as int;
    let total = weight_before(weights, n);
    match (algorithm, key) {
        (Algorithm::Hash, Some(number)) => number as int % n,
        (Algorithm::Weighted, _) => if total > 0 {
            band_of(weights, draw as int % total, 0)
        } else {
            draw as int % n
        },
        _ => draw as int % n,
    }
}

proof fn lemma_weight_before(weights: Seq<u32>, k: int)
    requires
        0 <= k <= weights.len(),
    ensures
        0 <= weight_before(weights, k) <= k * 0xffff_ffff,
    decreases k,
{
    if k > 0 {
        lemma_weight_before(weights, k - 1);
    }
}

proof fn lemma_band(weights: Seq<u32>, point: int, from: int)
    requires
        0 <= from < weights.len(),
        weight_before(weights, from) <= point < weight_before(weights, weights.len() as int),
    ensures
        ({
            let k = band_of(weights, point, from);
            from <= k < weights.len() && weight_before(weights, k) <= point < weight_before(
                weights,
                k + 1,
            )
        }),
    decreases weights.len() - from,
{
    if point >= weight_before(weights, from + 1) {
        lemma_band(weights, point, from + 1);
    }
}

proof fn lemma_weights_grow(weights: Seq<u32>, i: int, j: int)
    requires
        0 <= i <= j <= weights.len(),
    ensures
        weight_before(weights, i) <= weight_before(weights, j),
    decreases j - i,
{
    if i < j {
        lemma_weights_grow(weights, i, j - 1);
    }
}

/// Picks one of the eligible destinations, given by their weights.
pub fn pick(algorithm: Algorithm, weights: &Vec<u32>, key: Option<u64>, draw: u64) -> (r: usize)
    requires
        weights@.len() > 0,
    ensures
        r == picked(algorithm, weights@, key, draw),
        r < weights@.len(),
{
    let n: usize = weights.len();
    let plain: usize = (draw % (n as u64)) as usize;
    match algorithm {
        Algorithm::Hash => match key {
            Some(number) => (number % (n as u64)) as usize,
            None => plain,
        },
        Algorithm::RoundRobin => plain,
        Algorithm::Weighted => {
            let mut total: u128 = 0;
            let mut i: usize = 0;
            while i < n
                invariant
                    i <= n,
                    n == weights@.len(),
                    total == weight_before(weights@, i as int),
                decreases n - i,
            {
                proof {
                    lemma_weight_before(weights@, i as int);
                    assert(i * 0xffff_ffff <= 0xffff_ffff_ffff_ffff * 0xffff_ffff) by (nonlinear_arith)
                        requires
                            i <= 0xffff_ffff_ffff_ffff,
                    ;
                }
                total = total + weights[i] as u128;
                i += 1;
            }
            if total == 0 {
                return plain;
            }
            let point: u128 = draw as u128 % total;
            proof {
                lemma_band(weights@, point as int, 0);
            }
            let mut bound: u128 = 0;
            let mut k: usize = 0;
            while k < n
                invariant
                    k <= n,
                    n == weights@.len(),
                    bound == weight_before(weights@, k as int),
                    bound <= point < weight_before(weights@, n as int),
                    algorithm == Algorithm::Weighted,
                    total == weight_before(weights@, n as int),
                    total > 0,
                    point == draw as int % total as int,
                    band_of(weights@, point as int, 0) == band_of(weights@, point as int, k as int),
                decreases n - k,
            {
                proof {
                    lemma_weight_before(weights@, k as int);
                    assert(k * 0xffff_ffff <= 0xffff_ffff_ffff_ffff * 0xffff_ffff) by (nonlinear_arith)
                        requires
                            k <= 0xffff_ffff_ffff_ffff,
                    ;
                }
                bound = bound + weights[k] as u128;
                if point < bound {
                    return k;
                }
                k += 1;
            }
            0
        },
    }
}

/// In a weighted group a destination gets as many of the points as its weight
/// says: exactly those of its band.
pub proof fn weight_is_the_share(weights: Seq<u32>, k: int, draw: u64)
    requires
        0 <= k < weights.len(),
        weight_before(weights, weights.len() as int) > 0,
    ensures
        ({
            let point = draw as int % weight_before(weights, weights.len() as int);
            (picked(Algorithm::Weighted, weights, None, draw) == k) == (weight_before(weights, k)
                <= point < weight_before(weights, k) + weights[k])
        }),
{
    let total = weight_before(weights, weights.len() as int);
    let point = draw as int % total;
    lemma_band(weights, point, 0);
    let found = band_of(weights, point, 0);
    if found < k {
        lemma_weights_grow(weights, found + 1, k);
    } else if k < found {
        lemma_weights_grow(weights, k + 1, found);
    }
}

/// The weights of the eligible destinations.
pub open spec fn open_weights(destinations: Seq<DestText>, open: Seq<int>) -> Seq<u32> {
    Seq::new(open.len(), |i: int| destinations[open[i]].weight)
}

/// What a selection gives: the eligible destination that the group's algorithm
/// picks.
pub open spec fn selected(
    groups: Seq<GroupText>,
    name: Seq<char>,
    key: Option<Seq<char>>,
    filter: Seq<(Seq<char>, Seq<char>)>,
    draw: u64,
) -> Option<ShownText> {
    match group_named(groups, name) {
        None => None,
        Some(group) => {
            let open = choices(group.destinations, filter);
            if open.len() == 0 {
                None
            } else {
                let number = match key {
                    Some(key) => Some(key_number(key)),
                    None => None,
                };
                let k = picked(
                    group.algorithm,
                    open_weights(group.destinations, open),
                    number,
                    draw,
                );
                Some(shown(group.destinations[open[k]]))
            }
        },
    }
}

/// A key is sticky: in a hash group the same key gives the same destination,
/// whatever was drawn.
pub proof fn same_key_same_destination(
    groups: Seq<GroupText>,
    name: Seq<char>,
    key: Seq<char>,
    filter: Seq<(Seq<char>, Seq<char>)>,
    first: u64,
    second: u64,
)
    requires
        group_named(groups, name) matches Some(group) ==> group.algorithm == Algorithm::Hash,
    ensures
        selected(groups, name, Some(key), filter, first) == selected(
            groups,
            name,
            Some(key),
            filter,
            second,
        ),
{
}

impl PyGateway {
    /// No two groups share a name.
    pub open spec fn wf(&self) -> bool {
        distinct_names(self@)
    }

    pub fn new() -> (r: Self)
        ensures
            r@ == Seq::<GroupText>::empty(),
            r.wf(),
    {
        let r = PyGateway { groups: Vec::new() };
        assert(r@ =~= Seq::<GroupText>::empty());
        r
    }

    fn position(&self, name: &str) -> (r: Option<usize>)
        ensures
            match r {
                Some(i) => i == group_index(self@, name@, 0) && i < self@.len() && i
                    < self.groups@.len(),
                None => group_index(self@, name@, 0) == self@.len(),
            },
    {
        let mut i: usize = 0;
        while i < self.groups.len()
            invariant
                i <= self.groups@.len(),
                self@ == groups_text(self.groups@),
                group_index(self@, name@, 0) == group_index(self@, name@, i as int),
            decreases self.groups@.len() - i,
        {
            if same_text(&self.groups[i].name, name) {
                return Some(i);
            }
            i += 1;
        }
        None
    }

    /// The algorithm of a group.
    pub fn algorithm(&self, group_name: &str) -> (r: Option<Algorithm>)
        ensures
            r == match group_named(self@, group_name@) {
                Some(group) => Some(group.algorithm),
                None => None,
            },
    {
        match self.position(group_name) {
            Some(i) => Some(self.groups[i].algorithm),
            None => None,
        }
    }

    /// Selects a destination of a group by the group's algorithm. `key` makes
    /// the choice of a hash group sticky. `draw` is a number by chance, or the
    /// running count of a round-robin group.
    pub fn select(
        &self,
        group_name: &str,
        key: Option<&str>,
        attrs: Option<Vec<(PyValue, PyValue)>>,
        draw: u64,
    ) -> (r: Result<Option<PyDestination>, ScriptError>)
        ensures
            match r {
                Ok(dest) => filter_of(opt_items(attrs)) matches Ok(filter) && match dest {
                    Some(dest) => selected(self@, group_name@, opt_str(key), filter, draw) == Some(
                        dest@,
                    ),
                    None => selected(self@, group_name@, opt_str(key), filter, draw) is None,
                },
                Err(e) => filter_of(opt_items(attrs)) == Err::<
                    Seq<(Seq<char>, Seq<char>)>,
                    ErrorText,
                >(e@),
            },
    {
        let filter = match &attrs {
            Some(items) => match to_string_map(items) {
                Ok(filter) => filter,
                Err(e) => {
                    return Err(e);
                },
            },
            None => {
                let none: Vec<(String, String)> = Vec::new();
                assert(pairs_text(none@) =~= Seq::<(Seq<char>, Seq<char>)>::empty());
                none
            },
        };
        match self.position(group_name) {
            Some(i) => {
                let algorithm = self.groups[i].algorithm;
                let destinations = &self.groups[i].destinations;
                let open = eligible_positions(destinations, &filter);
                if open.len() == 0 {
                    Ok(None)
                } else {
                    let ghost all = dests_text(destinations@);
                    let ghost places = choices(all, pairs_text(filter@));
                    let mut weights: Vec<u32> = Vec::new();
                    let mut i: usize = 0;
                    while i < open.len()
                        invariant
                            i <= open@.len(),
                            all == dests_text(destinations@),
                            open@.len() == places.len(),
                            forall|k: int|
                                0 <= k < open@.len() ==> (#[trigger] open@[k]) as int == places[k]
                                    && open@[k] < destinations@.len(),
                            weights@ == open_weights(all, places).take(i as int),
                        decreases open@.len() - i,
                    {
                        assert(open@[i as int] as int == places[i as int]);
                        assert(all[places[i as int]].weight == destinations@[places[i as int]].weight);
                        weights.push(destinations[open[i]].weight);
                        assert(weights@ =~= open_weights(all, places).take(i + 1));
                        i += 1;
                    }
                    assert(weights@ =~= open_weights(all, places));
                    let number = match key {
                        Some(key) => Some(number_of_key(key)),
                        None => None,
                    };
                    let k = pick(algorithm, &weights, number, draw);
                    assert(open@[k as int] as int == places[k as int]);
                    Ok(Some(PyDestination::from_destination(&destinations[open[k]])))
                }
            },
            None => Ok(None),
        }
    }

    /// All the destinations of a group; none where there is no such group.
    pub fn list(&self, group_name: &str) -> (r: Vec<PyDestination>)
        ensures
            match group_named(self@, group_name@) {
                Some(group) => r@.len() == group.destinations.len() && forall|i: int|
                    0 <= i < r@.len() ==> (#[trigger] r@[i])@ == shown(group.destinations[i]),
                None => r@.len() == 0,
            },
    {
        let mut out: Vec<PyDestination> = Vec::new();
        if let Some(g) = self.position(group_name) {
            let destinations = &self.groups[g].destinations;
            let ghost all = dests_text(destinations@);
            let mut i: usize = 0;
            while i < destinations.len()
                invariant
                    i <= destinations@.len(),
                    all == dests_text(destinations@),
                    out@.len() == i,
                    forall|k: int| 0 <= k < i ==> (#[trigger] out@[k])@ == shown(all[k]),
                decreases destinations@.len() - i,
            {
                out.push(PyDestination::from_destination(&destinations[i]));
                i += 1;
            }
        }
        out
    }

    /// The URI and the health of each destination of a group.
    pub fn status(&self, group_name: &str) -> (r: Vec<(String, bool)>)
        ensures
            match group_named(self@, group_name@) {
                Some(group) => r@.len() == group.destinations.len() && forall|i: int|
                    0 <= i < r@.len() ==> (#[trigger] r@[i]).0@ == group.destinations[i].uri
                        && r@[i].1 == group.destinations[i].healthy,
                None => r@.len() == 0,
            },
    {
        let mut out: Vec<(String, bool)> = Vec::new();
        if let Some(g) = self.position(group_name) {
            let destinations = &self.groups[g].destinations;
            let ghost all = dests_text(destinations@);
            let mut i: usize = 0;
            while i < destinations.len()
                invariant
                    i <= destinations@.len(),
                    all == dests_text(destinations@),
                    out@.len() == i,
                    forall|k: int|
                        0 <= k < i ==> (#[trigger] out@[k]).0@ == all[k].uri && out@[k].1
                            == all[k].healthy,
                decreases destinations@.len() - i,
            {
                out.push((destinations[i].uri.clone(), destinations[i].healthy));
                i += 1;
            }
        }
        out
    }

    /// The names of the groups.
    pub fn groups(&self) -> (r: Vec<String>)
        ensures
            texts(r@) == Seq::new(self@.len(), |i: int| self@[i].name),
    {
        let mut out: Vec<String> = Vec::new();
        let mut i: usize = 0;
        while i < self.groups.len()
            invariant
                i <= self.groups@.len(),
                self@ == groups_text(self.groups@),
                out@.len() == i,
                forall|k: int| 0 <= k < i ==> (#[trigger] out@[k])@ == self@[k].name,
            decreases self.groups@.len() - i,
        {
            out.push(self.groups[i].name.clone());
            i += 1;
        }
        assert(texts(out@) =~= Seq::new(self@.len(), |i: int| self@[i].name));
        out
    }

    /// Adds a group, in place of the one of its name.
    pub fn put_group(&mut self, group: DispatcherGroup)
        requires
            old(self).wf(),
        ensures
            final(self)@ == with_group(old(self)@, group@),
            final(self).wf(),
    {
        proof {
            added_group_is_found(self@, group@);
        }
        match self.position(&group.name) {
            Some(i) => {
                self.groups.set(i, group);
            },
            None => {
                self.groups.push(group);
            },
        }
        assert(self@ =~= with_group(old(self)@, group@));
    }

    /// Adds a group that a script described. Nothing is added where one of its
    /// destinations is malformed or cannot be resolved.
    pub fn add_group(&mut self, name: &str, destinations: Vec<Requested>, algorithm: &str, probe: bool) -> (r:
        Result<(), ScriptError>)
        requires
            old(self).wf(),
        ensures
            final(self).wf(),
            match r {
                Ok(()) => destinations_of(requests_text(destinations@)) matches Ok(dests)
                    && final(self)@ == with_group(
                    old(self)@,
                    (GroupText {
                        name: name@,
                        algorithm: algorithm_named(algorithm@),
                        destinations: dests,
                        probe,
                    }),
                ),
                Err(e) => destinations_of(requests_text(destinations@)) == Err::<
                    Seq<DestText>,
                    ErrorText,
                >(e@) && final(self)@ == old(self)@,
            },
    {
        let algorithm = parse_algorithm(algorithm);
        let ghost all = requests_text(destinations@);
        let mut dests: Vec<Destination> = Vec::new();
        let mut i: usize = 0;
        assert(dests_text(dests@) =~= Seq::<DestText>::empty());
        while i < destinations.len()
            invariant
                i <= destinations@.len(),
                all == requests_text(destinations@),
                *self == *old(self),
                old(self).wf(),
                destinations_of(all.take(i as int)) == Ok::<Seq<DestText>, ErrorText>(
                    dests_text(dests@),
                ),
            decreases destinations@.len() - i,
        {
            assert(all.take(i + 1).drop_last() =~= all.take(i as int));
            assert(all.take(i + 1).last() == destinations@[i as int]@);
            let ghost before = dests@;
            match read_destination(&destinations[i]) {
                Ok(dest) => {
                    dests.push(dest);
                    assert(dests_text(dests@) =~= dests_text(before).push(dest@));
                },
                Err(e) => {
                    proof {
                        lemma_destinations_error(all, i + 1);
                    }
                    return Err(e);
                },
            }
            i += 1;
        }
        assert(all.take(destinations@.len() as int) =~= all);
        self.put_group(DispatcherGroup::new(name.to_owned(), algorithm, dests).with_probe(probe));
        Ok(())
    }

    /// Removes a group, and says whether there was one.
    pub fn remove_group(&mut self, name: &str) -> (r: bool)
        requires
            old(self).wf(),
        ensures
            r == (group_named(old(self)@, name@) is Some),
            final(self)@ == without_group(old(self)@, name@),
            final(self).wf(),
    {
        proof {
            removed_group_is_gone(self@, name@);
        }
        match self.position(name) {
            Some(i) => {
                let _ = self.groups.remove(i);
                assert(self@ =~= without_group(old(self)@, name@));
                true
            },
            None => false,
        }
    }

    fn mark(&mut self, group_name: &str, uri: &str, healthy: bool) -> (r: bool)
        requires
            old(self).wf(),
        ensures
            r == (group_named(old(self)@, group_name@) matches Some(group) && has_destination(
                group.destinations,
                uri@,
            )),
            final(self)@ == after_mark(old(self)@, group_name@, uri@, healthy),
            final(self).wf(),
    {
        match self.position(group_name) {
            Some(g) => {
                let mut group = self.groups.remove(g);
                let found = mark_all(&mut group.destinations, uri, healthy);
                self.groups.insert(g, group);
                proof {
                    let after = after_mark(old(self)@, group_name@, uri@, healthy);
                    assert(self@ =~= after);
                    assert forall|a: int, b: int| 0 <= a < b < after.len() implies (
                    #[trigger] after[a]).name != (#[trigger] after[b]).name by {
                        assert(old(self)@[a].name != old(self)@[b].name);
                    }
                }
                found
            },
            None => false,
        }
    }

    /// Marks a destination as down, and says whether there is one of that URI.
    pub fn mark_down(&mut self, group_name: &str, uri: &str) -> (r: bool)
        requires
            old(self).wf(),
        ensures
            r == (group_named(old(self)@, group_name@) matches Some(group) && has_destination(
                group.destinations,
                uri@,
            )),
            final(self)@ == after_mark(old(self)@, group_name@, uri@, false),
            final(self).wf(),
    {
        self.mark(group_name, uri, false)
    }

    /// Marks a destination as up, and says whether there is one of that URI.
    pub fn mark_up(&mut self, group_name: &str, uri: &str) -> (r: bool)
        requires
            old(self).wf(),
        ensures
            r == (group_named(old(self)@, group_name@) matches Some(group) && has_destination(
                group.destinations,
                uri@,
            )),
            final(self)@ == after_mark(old(self)@, group_name@, uri@, true),
            final(self).wf(),
    {
        self.mark(group_name, uri, true)
    }

    /// Whether an address is one of those that the destinations of a group
    /// resolved to. Ports do not count.
    pub fn source_in_group(&self, group_name: &str, source: IpAddr) -> (r: bool)
        ensures
            r == member(self@, group_name@, source),
    {
        match self.position(group_name) {
            Some(g) => {
                let destinations = &self.groups[g].destinations;
                let ghost all = dests_text(destinations@);
                let mut i: usize = 0;
                while i < destinations.len()
                    invariant
                        i <= destinations@.len(),
                        g < self.groups@.len(),
                        *destinations == self.groups@[g as int].destinations,
                        all == dests_text(destinations@),
                        group_named(self@, group_name@) matches Some(group) && group.destinations
                            == all,
                        forall|k: int| 0 <= k < i ==> !(#[trigger] all[k]).candidates.contains(source),
                    decreases destinations@.len() - i,
                {
                    if holds_ip(&destinations[i].candidates, source) {
                        assert(all[i as int].candidates.contains(source));
                        return true;
                    }
                    i += 1;
                }
                false
            },
            None => false,
        }
    }
}

/// Whether an address is one of those that the destinations of a group
/// resolved to.
pub open spec fn member(groups: Seq<GroupText>, name: Seq<char>, source: IpAddr) -> bool {
    match group_named(groups, name) {
        Some(group) => exists|i: int|
            0 <= i < group.destinations.len()
                && (#[trigger] group.destinations[i]).candidates.contains(source),
        None => false,
    }
}

fn holds_ip(v: &Vec<IpAddr>, ip: IpAddr) -> (r: bool)
    ensures
        r == v@.contains(ip),
{
    let mut i: usize = 0;
    while i < v.len()
        invariant
            i <= v@.len(),
            forall|k: int| 0 <= k < i ==> v@[k] != ip,
        decreases v@.len() - i,
    {
        if v[i] == ip {
            return true;
        }
        i += 1;
    }
    false
}

fn mark_all(destinations: &mut Vec<Destination>, uri: &str, healthy: bool) -> (r: bool)
    ensures
        dests_text(final(destinations)@) == marked(dests_text(old(destinations)@), uri@, healthy),
        r == has_destination(dests_text(old(destinations)@), uri@),
{
    let ghost all = dests_text(destinations@);
    let ghost want = marked(all, uri@, healthy);
    let mut found = false;
    let mut i: usize = 0;
    while i < destinations.len()
        invariant
            i <= destinations@.len(),
            destinations@.len() == all.len(),
            want == marked(all, uri@, healthy),
            forall|k: int| 0 <= k < i ==> (#[trigger] destinations@[k])@ == want[k],
            forall|k: int| i <= k < all.len() ==> (#[trigger] destinations@[k])@ == all[k],
            found == exists|k: int| 0 <= k < i && (#[trigger] all[k]).uri == uri@,
        decreases destinations@.len() - i,
    {
        assert(destinations@[i as int]@ == all[i as int]);
        if same_text(&destinations[i].uri, uri) {
            assert(all[i as int].uri == uri@);
            found = true;
            let dest = &mut destinations[i];
            dest.healthy = healthy;
        }
        i += 1;
    }
    assert(dests_text(destinations@) =~= want);
    found
}

} // verus!
