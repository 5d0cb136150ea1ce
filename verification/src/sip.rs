//! SIP messages as the scripting layer sees them.
//!
//! A header carries its text and, for address headers, what the address parser
//! made of it. Header names compare without regard to ASCII case.

use crate::text::{decimal, decimal_text, lower, opt_text, same_ignoring_case, texts};
use vstd::prelude::*;
use vstd::string::*;

verus! {

/// The parts of a SIP URI. `params` is what follows host and port, with its
/// leading separator.
pub struct UriText {
    pub scheme: Seq<char>,
    pub user: Option<Seq<char>>,
    pub host: Seq<char>,
    pub port: Option<u16>,
    pub params: Seq<char>,
}

/// The written form of a URI.
pub open spec fn uri_text(u: UriText) -> Seq<char> {
    let user = match u.user {
        Some(user) => user + "@"@,
        None => ""@,
    };
    let port = match u.port {
        Some(port) => ":"@ + decimal(port as nat),
        None => ""@,
    };
    u.scheme + ":"@ + user + u.host + port + u.params
}

/// The parts of an address header. `params` holds the header parameters other
/// than the tag, each with its leading semicolon.
pub struct AddressText {
    pub display_name: Option<Seq<char>>,
    pub uri: UriText,
    pub tag: Option<Seq<char>>,
    pub params: Seq<char>,
}

/// The written form of an address.
pub open spec fn address_text(a: AddressText) -> Seq<char> {
    let open = match a.display_name {
        Some(display) => "\""@ + display + "\" <"@,
        None => "<"@,
    };
    let tag = match a.tag {
        Some(tag) => ";tag="@ + tag,
        None => ""@,
    };
    open + uri_text(a.uri) + ">"@ + tag + a.params
}

/// A header: its name, its text, and the parsed address where it is one.
pub struct HeaderText {
    pub name: Seq<char>,
    pub value: Seq<char>,
    pub address: Option<AddressText>,
}

pub open spec fn same_name(a: Seq<char>, b: Seq<char>) -> bool {
    lower(a) == lower(b)
}

/// The position of the first header named `name` at or after `from`; the
/// number of headers if there is none.
pub open spec fn header_index(h: Seq<HeaderText>, name: Seq<char>, from: int) -> int
    decreases h.len() - from,
{
    if from < 0 || from >= h.len() {
        h.len() as int
    } else if same_name(h[from].name, name) {
        from
    } else {
        header_index(h, name, from + 1)
    }
}

/// The first header named `name`.
pub open spec fn header_of(h: Seq<HeaderText>, name: Seq<char>) -> Option<HeaderText> {
    let i = header_index(h, name, 0);
    if i < h.len() {
        Some(h[i])
    } else {
        None
    }
}

/// The text of the first header named `name`.
pub open spec fn header_value(h: Seq<HeaderText>, name: Seq<char>) -> Option<Seq<char>> {
    match header_of(h, name) {
        Some(header) => Some(header.value),
        None => None,
    }
}

/// The first header named `name`, else the first named `alias`.
pub open spec fn header_or(h: Seq<HeaderText>, name: Seq<char>, alias: Seq<char>) -> Option<HeaderText> {
    match header_of(h, name) {
        Some(header) => Some(header),
        None => header_of(h, alias),
    }
}

/// The headers that are not named `name`, in their order.
pub open spec fn without_header(h: Seq<HeaderText>, name: Seq<char>) -> Seq<HeaderText>
    decreases h.len(),
{
    if h.len() == 0 {
        h
    } else if same_name(h.last().name, name) {
        without_header(h.drop_last(), name)
    } else {
        without_header(h.drop_last(), name).push(h.last())
    }
}

/// The headers with a single header named `name`, at the end.
pub open spec fn with_header(h: Seq<HeaderText>, header: HeaderText) -> Seq<HeaderText> {
    without_header(h, header.name).push(header)
}

/// After a removal no header of that name is left.
pub proof fn removed_header_is_gone(h: Seq<HeaderText>, name: Seq<char>)
    ensures
        header_of(without_header(h, name), name) is None,
        forall|i: int|
            0 <= i < without_header(h, name).len() ==> !same_name(
                #[trigger] without_header(h, name)[i].name,
                name,
            ),
    decreases h.len(),
{
    if h.len() > 0 {
        removed_header_is_gone(h.drop_last(), name);
    }
    lemma_index_when_absent(without_header(h, name), name, 0);
}

proof fn lemma_index_when_absent(h: Seq<HeaderText>, name: Seq<char>, from: int)
    requires
        0 <= from <= h.len(),
        forall|i: int| from <= i < h.len() ==> !same_name(#[trigger] h[i].name, name),
    ensures
        header_index(h, name, from) == h.len(),
    decreases h.len() - from,
{
    if from < h.len() {
        lemma_index_when_absent(h, name, from + 1);
    }
}

pub proof fn lemma_header_index_range(h: Seq<HeaderText>, name: Seq<char>, from: int)
    requires
        0 <= from <= h.len(),
    ensures
        from <= header_index(h, name, from) <= h.len(),
        header_index(h, name, from) < h.len() ==> same_name(
            h[header_index(h, name, from)].name,
            name,
        ),
        forall|k: int|
            from <= k < header_index(h, name, from) ==> !same_name(#[trigger] h[k].name, name),
    decreases h.len() - from,
{
    if from < h.len() && !same_name(h[from].name, name) {
        lemma_header_index_range(h, name, from + 1);
    }
}

proof fn lemma_header_index_is(h: Seq<HeaderText>, name: Seq<char>, from: int, at: int)
    requires
        0 <= from <= at <= h.len(),
        at < h.len() ==> same_name(h[at].name, name),
        forall|k: int| from <= k < at ==> !same_name(#[trigger] h[k].name, name),
    ensures
        header_index(h, name, from) == at,
    decreases at - from,
{
    if from < at {
        lemma_header_index_is(h, name, from + 1, at);
    }
}

/// A header that was just set is the one that a lookup finds.
pub proof fn set_header_is_found(h: Seq<HeaderText>, header: HeaderText)
    ensures
        header_of(with_header(h, header), header.name) == Some(header),
{
    removed_header_is_gone(h, header.name);
    let kept = without_header(h, header.name);
    let r = with_header(h, header);
    assert forall|k: int| 0 <= k < kept.len() implies !same_name(#[trigger] r[k].name, header.name) by {
        assert(r[k] == kept[k]);
    }
    lemma_header_index_is(r, header.name, 0, kept.len() as int);
}

/// Removing or setting one header leaves what a lookup of another finds.
pub proof fn other_headers_are_kept(h: Seq<HeaderText>, header: HeaderText, other: Seq<char>)
    requires
        !same_name(header.name, other),
    ensures
        header_of(without_header(h, header.name), other) == header_of(h, other),
        header_of(with_header(h, header), other) == header_of(h, other),
    decreases h.len(),
{
    lemma_without_keeps(h, header.name, other);
    let kept = without_header(h, header.name);
    lemma_appended_header(kept, header, other);
}

pub proof fn lemma_appended_header(h: Seq<HeaderText>, header: HeaderText, name: Seq<char>)
    ensures
        header_of(h.push(header), name) == match header_of(h, name) {
            Some(found) => Some(found),
            None => if same_name(header.name, name) {
                Some(header)
            } else {
                None
            },
        },
{
    let r = h.push(header);
    lemma_header_index_range(h, name, 0);
    let i = header_index(h, name, 0);
    assert forall|k: int| 0 <= k < i implies !same_name(#[trigger] r[k].name, name) by {
        assert(r[k] == h[k]);
    }
    if i < h.len() {
        lemma_header_index_is(r, name, 0, i);
    } else if same_name(header.name, name) {
        lemma_header_index_is(r, name, 0, h.len() as int);
    } else {
        assert forall|k: int| 0 <= k < r.len() implies !same_name(#[trigger] r[k].name, name) by {
            if k < h.len() {
                assert(r[k] == h[k]);
            }
        }
        lemma_header_index_is(r, name, 0, r.len() as int);
    }
}

proof fn lemma_without_keeps(h: Seq<HeaderText>, name: Seq<char>, other: Seq<char>)
    requires
        !same_name(name, other),
    ensures
        header_of(without_header(h, name), other) == header_of(h, other),
    decreases h.len(),
{
    if h.len() > 0 {
        let init = h.drop_last();
        let last = h.last();
        lemma_without_keeps(init, name, other);
        assert(h =~= init.push(last));
        lemma_appended_header(init, last, other);
        lemma_appended_header(without_header(init, name), last, other);
    }
}

/// A SIP URI.
pub struct SipUri {
    pub scheme: String,
    pub user: Option<String>,
    pub host: String,
    pub port: Option<u16>,
    pub params: String,
}

impl View for SipUri {
    type V = UriText;

    open spec fn view(&self) -> UriText {
        UriText {
            scheme: self.scheme@,
            user: opt_text(self.user),
            host: self.host@,
            port: self.port,
            params: self.params@,
        }
    }
}

pub fn copy_opt(value: &Option<String>) -> (r: Option<String>)
    ensures
        opt_text(r) == opt_text(*value),
{
    match value {
        Some(s) => Some(s.clone()),
        None => None,
    }
}

impl SipUri {
    /// A `sip:` URI with nothing but a host.
    pub fn new(host: String) -> (r: Self)
        ensures
            r@ == (UriText {
                scheme: "sip"@,
                user: None,
                host: host@,
                port: None,
                params: ""@,
            }),
    {
        SipUri {
            scheme: "sip".to_owned(),
            user: None,
            host,
            port: None,
            params: "".to_owned(),
        }
    }

    pub fn with_user(self, user: String) -> (r: Self)
        ensures
            r@ == (UriText { user: Some(user@), ..self@ }),
    {
        SipUri { user: Some(user), ..self }
    }

    pub fn copy(&self) -> (r: Self)
        ensures
            r@ == self@,
    {
        SipUri {
            scheme: self.scheme.clone(),
            user: copy_opt(&self.user),
            host: self.host.clone(),
            port: self.port,
            params: self.params.clone(),
        }
    }

    /// The written form of the URI.
    pub fn render(&self) -> (r: String)
        ensures
            r@ == uri_text(self@),
    {
        let user = match &self.user {
            Some(user) => user.clone().concat("@"),
            None => "".to_owned(),
        };
        let port = match self.port {
            Some(port) => ":".to_owned().concat(&decimal_text(port as u64)),
            None => "".to_owned(),
        };
        self.scheme.clone().concat(":").concat(&user).concat(&self.host).concat(&port).concat(
            &self.params,
        )
    }
}

/// A parsed address header.
pub struct NameAddr {
    pub display_name: Option<String>,
    pub uri: SipUri,
    pub tag: Option<String>,
    pub params: String,
}

impl View for NameAddr {
    type V = AddressText;

    open spec fn view(&self) -> AddressText {
        AddressText {
            display_name: opt_text(self.display_name),
            uri: self.uri@,
            tag: opt_text(self.tag),
            params: self.params@,
        }
    }
}

impl NameAddr {
    pub fn copy(&self) -> (r: Self)
        ensures
            r@ == self@,
    {
        NameAddr {
            display_name: copy_opt(&self.display_name),
            uri: self.uri.copy(),
            tag: copy_opt(&self.tag),
            params: self.params.clone(),
        }
    }

    /// The written form of the address.
    pub fn render(&self) -> (r: String)
        ensures
            r@ == address_text(self@),
    {
        let open = match &self.display_name {
            Some(display) => "\"".to_owned().concat(display).concat("\" <"),
            None => "<".to_owned(),
        };
        let tag = match &self.tag {
            Some(tag) => ";tag=".to_owned().concat(tag),
            None => "".to_owned(),
        };
        open.concat(&self.uri.render()).concat(">").concat(&tag).concat(&self.params)
    }
}

pub open spec fn opt_address(a: Option<NameAddr>) -> Option<AddressText> {
    match a {
        Some(address) => Some(address@),
        None => None,
    }
}

/// A header of a message.
pub struct Header {
    pub name: String,
    pub value: String,
    pub address: Option<NameAddr>,
}

impl View for Header {
    type V = HeaderText;

    open spec fn view(&self) -> HeaderText {
        HeaderText { name: self.name@, value: self.value@, address: opt_address(self.address) }
    }
}

impl Header {
    /// A header whose value is not an address.
    pub fn plain(name: &str, value: &str) -> (r: Self)
        ensures
            r@ == (HeaderText { name: name@, value: value@, address: None }),
    {
        Header { name: name.to_owned(), value: value.to_owned(), address: None }
    }

    /// An address header in its written form.
    pub fn of_address(name: &str, address: NameAddr) -> (r: Self)
        ensures
            r@ == (HeaderText {
                name: name@,
                value: address_text(address@),
                address: Some(address@),
            }),
    {
        Header { name: name.to_owned(), value: address.render(), address: Some(address) }
    }

    pub fn copy(&self) -> (r: Self)
        ensures
            r@ == self@,
    {
        let address = match &self.address {
            Some(address) => Some(address.copy()),
            None => None,
        };
        Header { name: self.name.clone(), value: self.value.clone(), address }
    }
}

/// The headers of a message, in their order.
pub struct Headers {
    pub entries: Vec<Header>,
}

impl View for Headers {
    type V = Seq<HeaderText>;

    open spec fn view(&self) -> Seq<HeaderText> {
        Seq::new(self.entries@.len(), |i: int| self.entries@[i]@)
    }
}

impl Headers {
    pub fn new() -> (r: Self)
        ensures
            r@ == Seq::<HeaderText>::empty(),
    {
        let r = Headers { entries: Vec::new() };
        assert(r@ =~= Seq::<HeaderText>::empty());
        r
    }

    /// The position of the first header named `name`.
    pub fn position(&self, name: &str) -> (r: Option<usize>)
        ensures
            match r {
                Some(i) => i < self@.len() && i == header_index(self@, name@, 0) && header_of(
                    self@,
                    name@,
                ) == Some(self.entries@[i as int]@),
                None => header_of(self@, name@) is None,
            },
    {
        let mut i: usize = 0;
        while i < self.entries.len()
            invariant
                i <= self@.len(),
                self@.len() == self.entries@.len(),
                header_index(self@, name@, 0) == header_index(self@, name@, i as int),
            decreases self@.len() - i,
        {
            if same_ignoring_case(&self.entries[i].name, name) {
                assert(self@[i as int] == self.entries@[i as int]@);
                return Some(i);
            }
            i += 1;
        }
        None
    }

    /// The text of the first header named `name`.
    pub fn get(&self, name: &str) -> (r: Option<String>)
        ensures
            opt_text(r) == header_value(self@, name@),
    {
        match self.position(name) {
            Some(i) => Some(self.entries[i].value.clone()),
            None => None,
        }
    }

    /// A copy of the first header named `name`, else of the first named `alias`.
    pub fn find_or(&self, name: &str, alias: &str) -> (r: Option<Header>)
        ensures
            match r {
                Some(header) => header_or(self@, name@, alias@) == Some(header@),
                None => header_or(self@, name@, alias@) is None,
            },
    {
        match self.position(name) {
            Some(i) => Some(self.entries[i].copy()),
            None => match self.position(alias) {
                Some(i) => Some(self.entries[i].copy()),
                None => None,
            },
        }
    }

    /// Appends a header.
    pub fn append(&mut self, header: Header)
        ensures
            final(self)@ == old(self)@.push(header@),
    {
        self.entries.push(header);
        assert(self@ =~= old(self)@.push(header@));
    }

    /// Removes every header named `name`.
    pub fn remove(&mut self, name: &str)
        ensures
            final(self)@ == without_header(old(self)@, name@),
    {
        let mut kept: Vec<Header> = Vec::new();
        let mut i: usize = 0;
        let ghost before = self@;
        while i < self.entries.len()
            invariant
                i <= self.entries@.len(),
                self@ == before,
                before.len() == self.entries@.len(),
                (Headers { entries: kept })@ == without_header(before.take(i as int), name@),
            decreases self.entries@.len() - i,
        {
            let ghost prefix = before.take(i + 1);
            assert(prefix.drop_last() =~= before.take(i as int));
            assert(prefix.last() == self.entries@[i as int]@);
            let ghost kept_before = (Headers { entries: kept })@;
            if !same_ignoring_case(&self.entries[i].name, name) {
                kept.push(self.entries[i].copy());
                assert((Headers { entries: kept })@ =~= kept_before.push(prefix.last()));
            }
            i += 1;
        }
        assert(before.take(before.len() as int) =~= before);
        self.entries = kept;
    }

    /// Replaces every header of that name by one.
    pub fn set(&mut self, header: Header)
        ensures
            final(self)@ == with_header(old(self)@, header@),
    {
        self.remove(&header.name);
        self.append(header);
    }

    pub fn copy(&self) -> (r: Self)
        ensures
            r@ == self@,
    {
        let mut entries: Vec<Header> = Vec::new();
        let mut i: usize = 0;
        while i < self.entries.len()
            invariant
                i <= self.entries@.len(),
                entries@.len() == i,
                forall|k: int| 0 <= k < i ==> entries@[k]@ == #[trigger] self.entries@[k]@,
            decreases self.entries@.len() - i,
        {
            entries.push(self.entries[i].copy());
            i += 1;
        }
        let r = Headers { entries };
        assert(r@ =~= self@);
        r
    }
}

/// The first line of a message.
pub enum StartLine {
    Request { method: String, request_uri: SipUri },
    Response { code: u16, reason: String },
}

/// The first line as text parts.
pub enum StartText {
    Request { method: Seq<char>, request_uri: UriText },
    Response { code: u16, reason: Seq<char> },
}

impl View for StartLine {
    type V = StartText;

    open spec fn view(&self) -> StartText {
        match *self {
            StartLine::Request { method, request_uri } => StartText::Request {
                method: method@,
                request_uri: request_uri@,
            },
            StartLine::Response { code, reason } => StartText::Response { code, reason: reason@ },
        }
    }
}

/// A SIP message.
pub struct SipMessage {
    pub start_line: StartLine,
    pub headers: Headers,
    pub body: Vec<u8>,
}

/// What a message holds.
pub struct MessageText {
    pub start: StartText,
    pub headers: Seq<HeaderText>,
    pub body: Seq<u8>,
}

impl View for SipMessage {
    type V = MessageText;

    open spec fn view(&self) -> MessageText {
        MessageText { start: self.start_line@, headers: self.headers@, body: self.body@ }
    }
}

/// The method of a request; `otherwise` for a response.
pub open spec fn method_or(start: StartText, otherwise: Seq<char>) -> Seq<char> {
    match start {
        StartText::Request { method, .. } => method,
        StartText::Response { .. } => otherwise,
    }
}

impl SipMessage {
    /// The method of a request; `otherwise` for a response.
    pub fn method_or(&self, otherwise: &str) -> (r: String)
        ensures
            r@ == method_or(self@.start, otherwise@),
    {
        match &self.start_line {
            StartLine::Request { method, .. } => method.clone(),
            StartLine::Response { .. } => otherwise.to_owned(),
        }
    }
}

/// The URI of an address header in its written form.
pub open spec fn address_uri(h: Seq<HeaderText>, name: Seq<char>, alias: Seq<char>) -> Option<Seq<char>> {
    match header_or(h, name, alias) {
        Some(header) => match header.address {
            Some(address) => Some(uri_text(address.uri)),
            None => None,
        },
        None => None,
    }
}

/// The tag of an address header.
pub open spec fn address_tag(h: Seq<HeaderText>, name: Seq<char>, alias: Seq<char>) -> Option<Seq<char>> {
    match header_or(h, name, alias) {
        Some(header) => match header.address {
            Some(address) => address.tag,
            None => None,
        },
        None => None,
    }
}

/// The Call-ID of a message.
pub open spec fn call_id_of(h: Seq<HeaderText>) -> Option<Seq<char>> {
    match header_or(h, "Call-ID"@, "i"@) {
        Some(header) => Some(header.value),
        None => None,
    }
}

/// The URI of a request in its written form.
pub open spec fn request_uri_text(start: StartText) -> Option<Seq<char>> {
    match start {
        StartText::Request { request_uri, .. } => Some(uri_text(request_uri)),
        StartText::Response { .. } => None,
    }
}

/// A text; the empty one where there is none.
pub open spec fn text_or_empty(v: Option<Seq<char>>) -> Seq<char> {
    match v {
        Some(s) => s,
        None => ""@,
    }
}

pub fn or_empty(v: Option<String>) -> (r: String)
    ensures
        r@ == text_or_empty(opt_text(v)),
{
    match v {
        Some(s) => s,
        None => "".to_owned(),
    }
}

/// The key that a dialog is kept under: its Call-ID and one of its tags.
pub open spec fn dialog_key(call_id: Seq<char>, tag: Seq<char>) -> Seq<char> {
    call_id + "\0"@ + tag
}

pub fn make_dialog_key(call_id: &str, tag: &str) -> (r: String)
    ensures
        r@ == dialog_key(call_id@, tag@),
{
    call_id.to_owned().concat("\0").concat(tag)
}

/// The keys under which a dialog may be kept: with the caller's tag first, then
/// with the callee's.
pub open spec fn dialog_keys(h: Seq<HeaderText>) -> Seq<Seq<char>> {
    match call_id_of(h) {
        None => Seq::empty(),
        Some(call_id) => {
            let caller = match address_tag(h, "From"@, "f"@) {
                Some(tag) => seq![dialog_key(call_id, tag)],
                None => Seq::empty(),
            };
            match address_tag(h, "To"@, "t"@) {
                Some(tag) => caller.push(dialog_key(call_id, tag)),
                None => caller,
            }
        },
    }
}

impl SipMessage {
    /// The URI of an address header in its written form.
    pub fn address_uri(&self, name: &str, alias: &str) -> (r: Option<String>)
        ensures
            opt_text(r) == address_uri(self@.headers, name@, alias@),
    {
        match self.headers.find_or(name, alias) {
            Some(header) => match &header.address {
                Some(address) => Some(address.uri.render()),
                None => None,
            },
            None => None,
        }
    }

    /// The tag of an address header.
    pub fn address_tag(&self, name: &str, alias: &str) -> (r: Option<String>)
        ensures
            opt_text(r) == address_tag(self@.headers, name@, alias@),
    {
        match self.headers.find_or(name, alias) {
            Some(header) => match &header.address {
                Some(address) => copy_opt(&address.tag),
                None => None,
            },
            None => None,
        }
    }

    pub fn call_id(&self) -> (r: Option<String>)
        ensures
            opt_text(r) == call_id_of(self@.headers),
    {
        match self.headers.find_or("Call-ID", "i") {
            Some(header) => Some(header.value),
            None => None,
        }
    }

    /// The URI of a request in its written form.
    pub fn request_uri_text(&self) -> (r: Option<String>)
        ensures
            opt_text(r) == request_uri_text(self@.start),
    {
        match &self.start_line {
            StartLine::Request { request_uri, .. } => Some(request_uri.render()),
            StartLine::Response { .. } => None,
        }
    }

    /// The keys under which the dialog may be kept.
    pub fn dialog_keys(&self) -> (r: Vec<String>)
        ensures
            texts(r@) == dialog_keys(self@.headers),
    {
        let mut keys: Vec<String> = Vec::new();
        if let Some(call_id) = self.call_id() {
            if let Some(tag) = self.address_tag("From", "f") {
                keys.push(make_dialog_key(&call_id, &tag));
            }
            if let Some(tag) = self.address_tag("To", "t") {
                keys.push(make_dialog_key(&call_id, &tag));
            }
        }
        assert(texts(keys@) =~= dialog_keys(self@.headers));
        keys
    }
}

} // verus!
