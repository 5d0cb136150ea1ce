//! Laws of the headers of a call and of the identities in them.

use crate::call::identity::{address_in, rewriting_changes_one_part};
use crate::call::PyCall;
use crate::sip::{
    header_of, make_dialog_key, other_headers_are_kept, removed_header_is_gone, same_name,
    set_header_is_found, AddressText, Header, HeaderText, Headers, NameAddr, SipUri, StartText,
    UriText,
};
use crate::text::{decimal, opt_text};
use vstd::prelude::*;
use vstd::string::*;

verus! {

/// An address is written as its scheme, its user, its host and its port, in that
/// order, with its parameters behind.
pub proof fn uri_is_written_in_order(uri: SipUri, text: String)
    requires
        call_ensures(SipUri::render, (&uri,), text),
    ensures
        text@ == uri.scheme@ + seq![':'] + (match uri.user {
            Some(user) => user@ + seq!['@'],
            None => Seq::empty(),
        }) + uri.host@ + (match uri.port {
            Some(port) => seq![':'] + decimal(port as nat),
            None => Seq::empty(),
        }) + uri.params@,
{
    reveal_strlit(":");
    reveal_strlit("@");
    reveal_strlit("");
    assert(":"@ =~= seq![':']);
    assert("@"@ =~= seq!['@']);
    assert(""@ =~= Seq::<char>::empty());
}

/// A named address is written as its display name in quotes, the address in angle
/// brackets, its tag and its parameters, in that order.
pub proof fn address_is_written_in_order(address: NameAddr, uri: String, text: String)
    requires
        call_ensures(SipUri::render, (&address.uri,), uri),
        call_ensures(NameAddr::render, (&address,), text),
    ensures
        text@ == (match address.display_name {
            Some(name) => "\""@ + name@ + "\" <"@,
            None => "<"@,
        }) + uri@ + ">"@ + (match address.tag {
            Some(tag) => ";tag="@ + tag@,
            None => Seq::empty(),
        }) + address.params@,
{
    reveal_strlit("");
    assert(""@ =~= Seq::<char>::empty());
}

/// A header that is set is the one that is read, by any spelling of its name, and
/// other headers stay; one that is removed is gone.
pub proof fn headers_are_kept_by_name(
    headers: &mut Headers,
    header: Header,
    after: Headers,
    name: &str,
    value: Option<String>,
    removing: &mut Headers,
    gone: Headers,
    left: Option<String>,
    other: Seq<char>,
)
    requires
        call_ensures(Headers::set, (headers, header), ()),
        same_name(name@, header.name@),
        call_ensures(Headers::get, (&after, name), value),
        call_ensures(Headers::remove, (removing, name), ()),
        call_ensures(Headers::get, (&gone, name), left),
        !same_name(header.name@, other),
    ensures
        after == *final(headers) ==> opt_text(value) == Some(header.value@),
        header_of(final(headers)@, other) == header_of(old(headers)@, other),
        gone == *final(removing) ==> left is None,
{
    set_header_is_found(old(headers)@, header@);
    other_headers_are_kept(old(headers)@, header@, other);
    removed_header_is_gone(old(removing)@, name@);
    lemma_same_name(final(headers)@, header.name@, name@, 0);
}

proof fn lemma_same_name(h: Seq<HeaderText>, a: Seq<char>, b: Seq<char>, from: int)
    requires
        same_name(a, b),
        0 <= from <= h.len(),
    ensures
        crate::sip::header_index(h, a, from) == crate::sip::header_index(h, b, from),
    decreases h.len() - from,
{
    if from < h.len() && !same_name(h[from].name, a) {
        lemma_same_name(h, a, b, from + 1);
    }
}

/// A user that is set in the From header changes the user there and nothing else
/// of that address, of another header or of the call.
pub proof fn from_user_changes_the_from_user(
    call: &mut PyCall,
    value: &str,
    before: AddressText,
    other: Seq<char>,
)
    requires
        call_ensures(PyCall::set_from_user, (call, value), ()),
        address_in(old(call)@.message.headers, "From"@, "f"@) == Some(before),
        !same_name("From"@, other),
    ensures
        address_in(final(call)@.message.headers, "From"@, "f"@) matches Some(after) && {
            &&& after.uri.user == Some(value@)
            &&& after.uri.host == before.uri.host
            &&& after.uri.scheme == before.uri.scheme
            &&& after.uri.port == before.uri.port
            &&& after.uri.params == before.uri.params
            &&& after.display_name == before.display_name
            &&& after.tag == before.tag
            &&& after.params == before.params
        },
        header_of(final(call)@.message.headers, other) == header_of(
            old(call)@.message.headers,
            other,
        ),
        final(call)@.message.start == old(call)@.message.start,
        final(call)@.message.body == old(call)@.message.body,
        final(call)@.from_host == old(call)@.from_host,
        final(call)@.to_host == old(call)@.to_host,
{
    rewriting_changes_one_part(old(call)@.message.headers, "From"@, "f"@, value@, other);
}

/// A user that is set in the To header changes the user there and nothing else of
/// that address, of another header or of the call.
pub proof fn to_user_changes_the_to_user(
    call: &mut PyCall,
    value: &str,
    before: AddressText,
    other: Seq<char>,
)
    requires
        call_ensures(PyCall::set_to_user, (call, value), ()),
        address_in(old(call)@.message.headers, "To"@, "t"@) == Some(before),
        !same_name("To"@, other),
    ensures
        address_in(final(call)@.message.headers, "To"@, "t"@) matches Some(after) && {
            &&& after.uri.user == Some(value@)
            &&& after.uri.host == before.uri.host
            &&& after.uri.scheme == before.uri.scheme
            &&& after.uri.port == before.uri.port
            &&& after.uri.params == before.uri.params
            &&& after.display_name == before.display_name
            &&& after.tag == before.tag
            &&& after.params == before.params
        },
        header_of(final(call)@.message.headers, other) == header_of(
            old(call)@.message.headers,
            other,
        ),
        final(call)@.message.start == old(call)@.message.start,
{
    rewriting_changes_one_part(old(call)@.message.headers, "To"@, "t"@, value@, other);
}

/// A host that is set in the From header changes the host there and nothing else
/// of that address; so does one in the To header.
pub proof fn host_changes_where_it_is_set(
    call: &mut PyCall,
    from: bool,
    value: &str,
    before: AddressText,
    other: Seq<char>,
)
    requires
        from ==> call_ensures(PyCall::set_from_host, (call, value), ()) && address_in(
            old(call)@.message.headers,
            "From"@,
            "f"@,
        ) == Some(before) && !same_name("From"@, other),
        !from ==> call_ensures(PyCall::set_to_host, (call, value), ()) && address_in(
            old(call)@.message.headers,
            "To"@,
            "t"@,
        ) == Some(before) && !same_name("To"@, other),
    ensures
        (if from {
            address_in(final(call)@.message.headers, "From"@, "f"@)
        } else {
            address_in(final(call)@.message.headers, "To"@, "t"@)
        }) matches Some(after) && {
            &&& after.uri.host == value@
            &&& after.uri.user == before.uri.user
            &&& after.uri.scheme == before.uri.scheme
            &&& after.uri.port == before.uri.port
            &&& after.display_name == before.display_name
            &&& after.tag == before.tag
        },
        header_of(final(call)@.message.headers, other) == header_of(
            old(call)@.message.headers,
            other,
        ),
{
    if from {
        rewriting_changes_one_part(old(call)@.message.headers, "From"@, "f"@, value@, other);
    } else {
        rewriting_changes_one_part(old(call)@.message.headers, "To"@, "t"@, value@, other);
    }
}

/// A user that is set in the request line changes the user there and nothing
/// else.
pub proof fn request_user_changes_the_request_line(call: &mut PyCall, value: &str)
    requires
        call_ensures(PyCall::set_ruri_user, (call, value), ()),
    ensures
        match old(call)@.message.start {
            StartText::Request { method, request_uri } => final(call)@.message.start
                == (StartText::Request {
                method,
                request_uri: UriText {
                    scheme: request_uri.scheme,
                    user: Some(value@),
                    host: request_uri.host,
                    port: request_uri.port,
                    params: request_uri.params,
                },
            }),
            StartText::Response { .. } => final(call)@.message.start == old(call)@.message.start,
        },
        final(call)@.message.headers == old(call)@.message.headers,
        final(call)@.message.body == old(call)@.message.body,
{
}

/// A header that is set on a call is the one that is read, and other headers
/// stay; one that is removed is gone.
pub proof fn call_headers_are_kept_by_name(
    call: &mut PyCall,
    name: &str,
    value: &str,
    address: Option<NameAddr>,
    after: PyCall,
    read: Option<String>,
    there: bool,
    other: Seq<char>,
)
    requires
        call_ensures(PyCall::set_header, (call, name, value, address), ()),
        call_ensures(PyCall::header, (&after, name), read) || call_ensures(
            PyCall::get_header,
            (&after, name),
            read,
        ),
        call_ensures(PyCall::has_header, (&after, name), there),
        !same_name(name@, other),
    ensures
        after == *final(call) ==> opt_text(read) == Some(value@) && there,
        header_of(final(call)@.message.headers, other) == header_of(
            old(call)@.message.headers,
            other,
        ),
        final(call)@.message.start == old(call)@.message.start,
        final(call)@.message.body == old(call)@.message.body,
        final(call)@.action == old(call)@.action,
{
    let header = HeaderText {
        name: name@,
        value: value@,
        address: crate::sip::opt_address(address),
    };
    set_header_is_found(old(call)@.message.headers, header);
    other_headers_are_kept(old(call)@.message.headers, header, other);
}

/// A dialog is known by its Call-ID and, behind a zero, one of its tags.
pub proof fn dialog_is_known_by_call_id_and_tag(call_id: &str, tag: &str, key: String)
    requires
        call_ensures(make_dialog_key, (call_id, tag), key),
    ensures
        key@ == call_id@ + seq!['\0'] + tag@,
{
    reveal_strlit("\0");
    assert("\0"@ =~= seq!['\0']);
}

/// The caller's address is read from the From header, the callee's from the To
/// header.
pub proof fn parties_are_read_from_their_headers(
    call: PyCall,
    from: Option<SipUri>,
    to: Option<SipUri>,
    line: Option<SipUri>,
    a: HeaderText,
    b: HeaderText,
)
    requires
        call_ensures(PyCall::from_uri, (&call,), from),
        call_ensures(PyCall::to_uri, (&call,), to),
        call_ensures(PyCall::ruri, (&call,), line),
        header_of(call@.message.headers, "From"@) == Some(a),
        header_of(call@.message.headers, "To"@) == Some(b),
    ensures
        match a.address {
            Some(address) => from matches Some(uri) && uri@ == address.uri,
            None => from is None,
        },
        match b.address {
            Some(address) => to matches Some(uri) && uri@ == address.uri,
            None => to is None,
        },
        match call@.message.start {
            StartText::Request { request_uri, .. } => line matches Some(uri) && uri@ == request_uri,
            StartText::Response { .. } => line is None,
        },
{
}

/// An address that is made of a host is a SIP address of that host and nothing
/// else; a user that is added changes only the user.
pub proof fn plain_uri_names_its_host(host: String, uri: SipUri, user: String, named: SipUri)
    requires
        call_ensures(SipUri::new, (host,), uri),
        call_ensures(SipUri::with_user, (uri, user), named),
    ensures
        uri.scheme@ == "sip"@ && uri.user is None && uri.host@ == host@ && uri.port is None,
        named.scheme@ == "sip"@ && opt_text(named.user) == Some(user@) && named.host@ == host@
            && named.port is None,
{
}

} // verus!
