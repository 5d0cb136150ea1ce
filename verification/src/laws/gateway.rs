//! Laws of the gateway groups.

use crate::error::{ErrorText, ScriptError};
use crate::gateway::{
    added_group_is_found, attrs_match, choices, destination_of, destinations_of, dests_text,
    eligible, eligible_among, group_index, group_named, key_number, parse_algorithm, picked,
    requests_text, shown, usable, usable_destination_is_chosen, Algorithm, DestText, Destination,
    DispatcherGroup, GroupText, PyDestination, PyGateway, Requested, RequestedText, ShownText,
};
use crate::ipsec::Transport;
use crate::laws::rx::stands_for;
use crate::net::{socket_of, socket_text, IpAddr, SocketAddr};
use crate::pyvalue::{
    as_string_map, entries_text, entry, filter_of, opt_items, PyText, PyValue,
};
use crate::text::{contains_text, lowercase, pairs_text};
use vstd::prelude::*;
use vstd::string::*;

verus! {

/// The algorithm that a name stands for; a name that is none stands for the
/// weighted one.
pub proof fn algorithm_goes_by_its_name(name: &str, algorithm: Algorithm)
    requires
        call_ensures(parse_algorithm, (name,), algorithm),
    ensures
        algorithm == Algorithm::RoundRobin <==> name@ == "round_robin"@,
        algorithm == Algorithm::Hash <==> name@ == "hash"@,
{
    reveal_strlit("round_robin");
    reveal_strlit("hash");
    assert("round_robin"@.len() == 11);
    assert("hash"@.len() == 4);
}

/// Whether a number is the one under a key of a dict, or one where the dict has
/// no such key.
pub open spec fn number_or_one_under(d: Seq<(Seq<char>, PyText)>, key: Seq<char>, n: u32) -> bool {
    match entry(d, key) {
        Some(value) => stands_for(value, n),
        None => n == 1,
    }
}

/// The transport that a dict names.
pub open spec fn transport_under(d: Seq<(Seq<char>, PyText)>, transport: Transport) -> bool {
    match entry(d, "transport"@) {
        Some(PyText::Text(name)) => match transport {
            Transport::Tcp => name == "tcp"@,
            Transport::Tls => name == "tls"@,
            Transport::Udp => name != "tcp"@ && name != "tls"@,
            _ => false,
        },
        Some(_) => false,
        None => transport == Transport::Udp,
    }
}

/// Whether a destination is what a script's dict says, each part under its own
/// key, at the address that the dict names or that the lookup gave.
pub open spec fn destination_as_written(requested: Requested, dest: DestText) -> bool {
    let d = entries_text(requested.dict@);
    &&& entry(d, "uri"@) == Some(PyText::Text(dest.uri))
    &&& entry(d, "address"@) matches Some(value) ==> (value matches PyText::Text(text)
        && match socket_of(text) {
        Some(address) => dest.address == address,
        None => requested.lookup.text@ == text && requested.lookup.outcome == Ok::<
            SocketAddr,
            String,
        >(dest.address),
    })
    &&& number_or_one_under(d, "weight"@, dest.weight)
    &&& number_or_one_under(d, "priority"@, dest.priority)
    &&& transport_under(d, dest.transport)
    &&& match entry(d, "attrs"@) {
        Some(value) => as_string_map(value) == Ok::<Seq<(Seq<char>, Seq<char>)>, ErrorText>(
            dest.attrs,
        ),
        None => dest.attrs.len() == 0,
    }
    &&& dest.healthy
    &&& dest.candidates == seq![dest.address.ip]
}

proof fn lemma_destination_as_written(requested: Requested, dest: DestText)
    requires
        destination_of(requested@) == Ok::<DestText, ErrorText>(dest),
    ensures
        destination_as_written(requested, dest),
{
    reveal_strlit("udp");
    reveal_strlit("tcp");
    reveal_strlit("tls");
    assert("udp"@[0] == 'u');
    assert("tcp"@[1] == 'c');
    assert("tls"@[1] == 'l');
    let d = entries_text(requested.dict@);
    assert(destination_of(requested@) is Ok);
    assert(number_or_one_under(d, "weight"@, dest.weight));
    assert(number_or_one_under(d, "priority"@, dest.priority));
    assert(transport_under(d, dest.transport));
    if let Some(value) = entry(d, "address"@) {
        let text = value->Text_0;
        if socket_of(text) is None {
            assert(requested.lookup.text@ == text);
            assert(requested.lookup.outcome is Ok);
        }
    }
}

proof fn lemma_destinations_in_order(v: Seq<RequestedText>)
    ensures
        destinations_of(v) matches Ok(dests) ==> dests.len() == v.len() && forall|i: int|
            0 <= i < v.len() ==> destination_of(#[trigger] v[i]) == Ok::<DestText, ErrorText>(
                dests[i],
            ),
    decreases v.len(),
{
    if v.len() > 0 {
        lemma_destinations_in_order(v.drop_last());
        if destinations_of(v) is Ok {
            let dests = destinations_of(v)->Ok_0;
            assert forall|i: int| 0 <= i < v.len() implies destination_of(#[trigger] v[i]) == Ok::<
                DestText,
                ErrorText,
            >(dests[i]) by {
                if i < v.len() - 1 {
                    assert(v.drop_last()[i] == v[i]);
                }
            }
        }
    }
}

/// A group that a script adds holds the destinations that it lists, in its order
/// and as written, under the name, the algorithm and the probing that it gives.
pub proof fn added_group_holds_what_was_listed(
    gateway: &mut PyGateway,
    name: &str,
    destinations: Vec<Requested>,
    algorithm: &str,
    probe: bool,
    parsed: Algorithm,
)
    requires
        old(gateway).wf(),
        call_ensures(
            PyGateway::add_group,
            (gateway, name, destinations, algorithm, probe),
            Ok::<(), ScriptError>(()),
        ),
        call_ensures(parse_algorithm, (algorithm,), parsed),
    ensures
        group_named(final(gateway)@, name@) matches Some(group) && {
            &&& group.algorithm == parsed
            &&& group.probe == probe
            &&& group.destinations.len() == destinations@.len()
            &&& forall|i: int|
                0 <= i < destinations@.len() ==> destination_as_written(
                    #[trigger] destinations@[i],
                    group.destinations[i],
                )
        },
{
    let requests = requests_text(destinations@);
    lemma_destinations_in_order(requests);
    let dests = destinations_of(requests)->Ok_0;
    let group = GroupText { name: name@, algorithm: parsed, destinations: dests, probe };
    added_group_is_found(old(gateway)@, group);
    assert(requests.len() == destinations@.len());
    assert forall|i: int| 0 <= i < destinations@.len() implies destination_as_written(
        #[trigger] destinations@[i],
        dests[i],
    ) by {
        assert(requests[i] == destinations@[i]@);
        assert(destination_of(requests[i]) == Ok::<DestText, ErrorText>(dests[i]));
        lemma_destination_as_written(destinations@[i], dests[i]);
    }
}

/// Whether what a script sees of a destination is the destination: its address,
/// health, weight, priority and attributes each in its place, and its URI, with
/// the transport added where it is not UDP and the URI names none.
pub open spec fn shows_destination(seen: ShownText, dest: DestText) -> bool {
    &&& seen.address == socket_text(dest.address)
    &&& seen.healthy == dest.healthy
    &&& seen.weight == dest.weight
    &&& seen.priority == dest.priority
    &&& seen.attrs == dest.attrs
    &&& contains_text(lowercase(dest.uri), ";transport="@) ==> seen.uri == dest.uri
    &&& !contains_text(lowercase(dest.uri), ";transport="@) ==> seen.uri == match dest.transport {
        Transport::Udp => dest.uri,
        Transport::Tcp => dest.uri + ";transport=tcp"@,
        Transport::Tls => dest.uri + ";transport=tls"@,
        Transport::Ws => dest.uri + ";transport=ws"@,
        Transport::Wss => dest.uri + ";transport=wss"@,
        Transport::Sctp => dest.uri + ";transport=sctp"@,
    }
}

/// What is selected is a destination of the group that is up, has the attributes
/// asked for and comes before every other such one by priority; nothing is
/// selected exactly where there is no such destination.
pub proof fn selection_is_the_best_usable_destination(
    gateway: PyGateway,
    name: &str,
    key: Option<&str>,
    attrs: Option<Vec<(PyValue, PyValue)>>,
    draw: u64,
    chosen: Option<PyDestination>,
    group: GroupText,
    wanted: Seq<(Seq<char>, Seq<char>)>,
)
    requires
        call_ensures(PyGateway::select, (&gateway, name, key, attrs, draw), Ok(chosen)),
        group_named(gateway@, name@) == Some(group),
        filter_of(opt_items(attrs)) == Ok::<Seq<(Seq<char>, Seq<char>)>, ErrorText>(wanted),
    ensures
        match chosen {
            Some(dest) => exists|i: int|
                0 <= i < group.destinations.len() && shows_destination(
                    dest@,
                    #[trigger] group.destinations[i],
                ) && group.destinations[i].healthy && attrs_match(
                    group.destinations[i].attrs,
                    wanted,
                ) && forall|j: int|
                    0 <= j < group.destinations.len() && (#[trigger] group.destinations[j]).healthy
                        && attrs_match(group.destinations[j].attrs, wanted)
                        ==> group.destinations[i].priority <= group.destinations[j].priority,
            None => forall|i: int|
                0 <= i < group.destinations.len() && (#[trigger] group.destinations[i]).healthy
                    ==> !attrs_match(group.destinations[i].attrs, wanted),
        },
{
    let open = choices(group.destinations, wanted);
    match chosen {
        Some(dest) => {
            let number = match key {
                Some(key) => Some(key_number(key@)),
                None => None,
            };
            let weights = crate::gateway::open_weights(group.destinations, open);
            let k = picked(group.algorithm, weights, number, draw);
            lemma_pick_in_range(group.algorithm, weights, number, draw);
            lemma_choices_are_eligible(group.destinations, wanted, group.destinations.len() as int);
            let i = open[k];
            assert(eligible(group.destinations, wanted, i));
            assert(dest@ == shown(group.destinations[i]));
            assert(shows_destination(dest@, group.destinations[i]));
            assert forall|j: int|
                0 <= j < group.destinations.len() && (#[trigger] group.destinations[j]).healthy
                    && attrs_match(
                    group.destinations[j].attrs,
                    wanted,
                ) implies group.destinations[i].priority <= group.destinations[j].priority by {
                assert(usable(group.destinations[j], wanted));
            }
        },
        None => {
            assert forall|i: int|
                0 <= i < group.destinations.len()
                    && (#[trigger] group.destinations[i]).healthy implies !attrs_match(
                group.destinations[i].attrs,
                wanted,
            ) by {
                if attrs_match(group.destinations[i].attrs, wanted) {
                    usable_destination_is_chosen(group.destinations, wanted, i);
                }
            }
        },
    }
}

proof fn lemma_band_in_range(weights: Seq<u32>, point: int, from: int)
    requires
        weights.len() > 0,
        0 <= from <= weights.len(),
    ensures
        0 <= crate::gateway::band_of(weights, point, from) < weights.len(),
    decreases weights.len() - from,
{
    if from < weights.len() && point >= crate::gateway::weight_before(weights, from + 1) {
        lemma_band_in_range(weights, point, from + 1);
    }
}

proof fn lemma_pick_in_range(algorithm: Algorithm, weights: Seq<u32>, key: Option<u64>, draw: u64)
    requires
        weights.len() > 0,
    ensures
        0 <= picked(algorithm, weights, key, draw) < weights.len(),
{
    let n = weights.len() as int;
    let total = crate::gateway::weight_before(weights, n);
    if total > 0 {
        lemma_band_in_range(weights, draw as int % total, 0);
    }
    assert(0 <= draw as int % n < n);
    if let Some(number) = key {
        assert(0 <= number as int % n < n);
    }
}

proof fn lemma_choices_are_eligible(
    destinations: Seq<DestText>,
    wanted: Seq<(Seq<char>, Seq<char>)>,
    n: int,
)
    requires
        0 <= n <= destinations.len(),
    ensures
        forall|k: int|
            0 <= k < eligible_among(destinations, wanted, n).len() ==> eligible(
                destinations,
                wanted,
                #[trigger] eligible_among(destinations, wanted, n)[k],
            ) && eligible_among(destinations, wanted, n)[k] < n,
    decreases n,
{
    if n > 0 {
        lemma_choices_are_eligible(destinations, wanted, n - 1);
        let before = eligible_among(destinations, wanted, n - 1);
        let all = eligible_among(destinations, wanted, n);
        assert forall|k: int| 0 <= k < all.len() implies eligible(
            destinations,
            wanted,
            #[trigger] all[k],
        ) && all[k] < n by {
            if k < before.len() {
                assert(all[k] == before[k]);
            }
        }
    }
}

proof fn lemma_all_eligible(destinations: Seq<DestText>, wanted: Seq<(Seq<char>, Seq<char>)>, n: int)
    requires
        0 <= n <= destinations.len(),
        forall|i: int| 0 <= i < destinations.len() ==> eligible(destinations, wanted, i),
    ensures
        eligible_among(destinations, wanted, n) == Seq::new(n as nat, |i: int| i),
    decreases n,
{
    if n > 0 {
        lemma_all_eligible(destinations, wanted, n - 1);
        assert(eligible(destinations, wanted, n - 1));
    }
    assert(eligible_among(destinations, wanted, n) =~= Seq::new(n as nat, |i: int| i));
}

/// A round-robin group whose destinations are all up and of one priority is
/// walked in its order, one destination for each draw.
pub proof fn round_robin_walks_the_group(
    gateway: PyGateway,
    name: &str,
    key: Option<&str>,
    draw: u64,
    chosen: Option<PyDestination>,
    group: GroupText,
)
    requires
        call_ensures(PyGateway::select, (&gateway, name, key, None, draw), Ok(chosen)),
        group_named(gateway@, name@) == Some(group),
        group.algorithm == Algorithm::RoundRobin,
        group.destinations.len() > 0,
        forall|i: int|
            0 <= i < group.destinations.len() ==> (#[trigger] group.destinations[i]).healthy
                && group.destinations[i].priority == group.destinations[0].priority,
    ensures
        chosen matches Some(dest) && shows_destination(
            dest@,
            group.destinations[draw as int % group.destinations.len() as int],
        ),
{
    let dests = group.destinations;
    let wanted = Seq::<(Seq<char>, Seq<char>)>::empty();
    assert forall|i: int| 0 <= i < dests.len() implies eligible(dests, wanted, i) by {
        assert(dests[i].healthy);
        assert(dests[i].priority == dests[0].priority);
        assert forall|k: int| 0 <= k < dests.len() && usable(#[trigger] dests[k], wanted) implies dests[i].priority
            <= dests[k].priority by {
            assert(dests[k].priority == dests[0].priority);
        }
    }
    lemma_all_eligible(dests, wanted, dests.len() as int);
    let n = dests.len() as int;
    assert(0 <= draw as int % n < n);
}

/// A destination that is marked down is down, whatever else has its URI goes
/// with it, and every other destination of every group stays as it was; marked
/// up, it is up.
pub proof fn mark_concerns_one_destination(
    gateway: &mut PyGateway,
    name: &str,
    uri: &str,
    up: bool,
    known: bool,
    group: GroupText,
    other: Seq<char>,
)
    requires
        old(gateway).wf(),
        !up ==> call_ensures(PyGateway::mark_down, (gateway, name, uri), known),
        up ==> call_ensures(PyGateway::mark_up, (gateway, name, uri), known),
        group_named(old(gateway)@, name@) == Some(group),
        other != name@,
    ensures
        group_named(final(gateway)@, name@) matches Some(after) && {
            &&& after.destinations.len() == group.destinations.len()
            &&& forall|i: int|
                0 <= i < group.destinations.len() ==> (#[trigger] after.destinations[i]) == (
                DestText {
                    healthy: if group.destinations[i].uri == uri@ {
                        up
                    } else {
                        group.destinations[i].healthy
                    },
                    ..group.destinations[i]
                })
            &&& after.algorithm == group.algorithm
            &&& after.probe == group.probe
        },
        known <==> exists|i: int|
            0 <= i < group.destinations.len() && (#[trigger] group.destinations[i]).uri == uri@,
        group_named(final(gateway)@, other) == group_named(old(gateway)@, other),
{
    let before = old(gateway)@;
    let after = final(gateway)@;
    lemma_group_index(before, name@, 0);
    lemma_group_index(after, name@, 0);
    lemma_group_index(before, other, 0);
    lemma_group_index(after, other, 0);
    let i = group_index(before, name@, 0);
    assert(after[i].name == name@);
    let j = group_index(after, name@, 0);
    if j < i {
        assert(after[j] == before[j]);
    }
    assert(j == i);
    let p = group_index(before, other, 0);
    let q = group_index(after, other, 0);
    if p < before.len() {
        assert(after[p].name == other);
    }
    if q < after.len() {
        assert(before[q].name == other);
    }
    assert(p == q);
}

proof fn lemma_group_index(groups: Seq<GroupText>, name: Seq<char>, from: int)
    requires
        0 <= from <= groups.len(),
    ensures
        from <= group_index(groups, name, from) <= groups.len(),
        group_index(groups, name, from) < groups.len() ==> groups[group_index(
            groups,
            name,
            from,
        )].name == name,
        forall|k: int|
            from <= k < group_index(groups, name, from) ==> (#[trigger] groups[k]).name != name,
    decreases groups.len() - from,
{
    if from < groups.len() && groups[from].name != name {
        lemma_group_index(groups, name, from + 1);
    }
}

/// A group's status lists its destinations in their order, each URI beside
/// whether it is up; so does its list.
pub proof fn status_lists_the_group_in_order(
    gateway: PyGateway,
    name: &str,
    group: GroupText,
    status: Vec<(String, bool)>,
    listed: Vec<PyDestination>,
)
    requires
        group_named(gateway@, name@) == Some(group),
        call_ensures(PyGateway::status, (&gateway, name), status),
        call_ensures(PyGateway::list, (&gateway, name), listed),
    ensures
        status@.len() == group.destinations.len(),
        listed@.len() == group.destinations.len(),
        forall|i: int|
            0 <= i < group.destinations.len() ==> (#[trigger] status@[i]).0@
                == group.destinations[i].uri && status@[i].1 == group.destinations[i].healthy,
        forall|i: int|
            0 <= i < group.destinations.len() ==> shows_destination(
                (#[trigger] listed@[i])@,
                group.destinations[i],
            ),
{
    assert forall|i: int| 0 <= i < group.destinations.len() implies shows_destination(
        (#[trigger] listed@[i])@,
        group.destinations[i],
    ) by {
        assert(listed@[i]@ == shown(group.destinations[i]));
    }
}

/// A destination is made of what it is given, each part in its place, and is up.
pub proof fn destination_is_what_it_was_made_with(
    uri: String,
    address: SocketAddr,
    transport: Transport,
    weight: u32,
    priority: u32,
    dest: Destination,
)
    requires
        call_ensures(Destination::new, (uri, address, transport, weight, priority), dest),
    ensures
        dest.uri@ == uri@,
        dest.address == address,
        dest.transport == transport,
        dest.weight == weight,
        dest.priority == priority,
        dest.healthy,
        dest.candidates@ == seq![address.ip],
        dest.attrs@.len() == 0,
{
    assert(pairs_text(dest.attrs@).len() == dest.attrs@.len());
}

/// A group that is put is the one under its name: an address belongs to it
/// exactly when it is among the candidates of one of its destinations.
pub proof fn source_belongs_to_the_group_that_lists_it(
    gateway: &mut PyGateway,
    group: DispatcherGroup,
    after: PyGateway,
    name: &str,
    source: IpAddr,
    belongs: bool,
)
    requires
        old(gateway).wf(),
        call_ensures(PyGateway::put_group, (gateway, group), ()),
        call_ensures(PyGateway::source_in_group, (&after, name, source), belongs),
        name@ == group.name@,
    ensures
        after == *final(gateway) ==> (belongs <==> exists|i: int|
            0 <= i < group.destinations@.len() && (#[trigger] group.destinations@[i]).candidates@.contains(
                source,
            )),
{
    added_group_is_found(old(gateway)@, group@);
    if after == *final(gateway) {
        let dests = dests_text(group.destinations@);
        if belongs {
            let i = choose|i: int|
                0 <= i < dests.len() && (#[trigger] dests[i]).candidates.contains(source);
            assert(group.destinations@[i].candidates@.contains(source));
        } else if exists|i: int|
            0 <= i < group.destinations@.len() && (#[trigger] group.destinations@[i]).candidates@.contains(
                source,
            ) {
            let i = choose|i: int|
                0 <= i < group.destinations@.len() && (
                #[trigger] group.destinations@[i]).candidates@.contains(source);
            assert(dests[i].candidates.contains(source));
        }
    }
}

} // verus!
