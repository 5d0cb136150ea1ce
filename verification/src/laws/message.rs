//! Laws of SIP messages and of the requests and calls that hold them.

use crate::call::action::{opt_flow, PyContact, PyFlow, Replaces, RouteAttempt};
use crate::call::identity::{
    address_header, address_in, anonymous, anonymous_from, private_value, presented,
    presented_number_keeps_the_tag, removed_prefix_is_gone, restricted,
    restricted_call_hides_its_caller, rewriting_changes_one_part, with_user_in, without_prefix,
};
use crate::call::{ChargingParam, PyCall};
use crate::lcr::LcrRequest;
use crate::net::{IpAddr, SocketAddr};
use crate::pyvalue::{entry, PyText, PyValue};
use crate::request::{PyRequest, RequestAction};
use crate::sip::{
    address_tag, address_text, address_uri, dialog_key, dialog_keys, header_index, header_of,
    header_value, lemma_header_index_range, other_headers_are_kept, same_name, set_header_is_found,
    with_header, uri_text, Header, HeaderText, Headers, SipMessage, SipUri, StartText,
};
use crate::text::{lowercase, opt_str, opt_text, pairs_text, starts_with, texts};
use vstd::prelude::*;
use vstd::string::*;

verus! {

/// Whether a header is the first of a list with the given name, in any case.
pub open spec fn first_named(h: Seq<Header>, name: Seq<char>, i: int) -> bool {
    &&& 0 <= i < h.len()
    &&& same_name(h[i].name@, name)
    &&& forall|j: int| 0 <= j < i ==> !same_name((#[trigger] h[j]).name@, name)
}

/// Whether no header of a list has the given name, in any case.
pub open spec fn none_named(h: Seq<Header>, name: Seq<char>) -> bool {
    forall|j: int| 0 <= j < h.len() ==> !same_name((#[trigger] h[j]).name@, name)
}

proof fn lemma_first_named(headers: Headers, name: Seq<char>, i: int)
    ensures
        first_named(headers.entries@, name, i) ==> header_of(headers@, name) == Some(
            headers.entries@[i]@,
        ),
        none_named(headers.entries@, name) ==> header_of(headers@, name) is None,
{
    let h = headers@;
    lemma_header_index_range(h, name, 0);
    let at = header_index(h, name, 0);
    assert forall|j: int| 0 <= j < h.len() implies (#[trigger] h[j]).name
        == headers.entries@[j].name@ by {}
    if first_named(headers.entries@, name, i) {
        if at < i {
            assert(same_name(h[at].name, name));
            assert(!same_name(headers.entries@[at].name@, name));
        }
        if i < at {
            assert(!same_name(h[i].name, name));
        }
    }
    if none_named(headers.entries@, name) && at < h.len() {
        assert(!same_name(headers.entries@[at].name@, name));
    }
}

/// A header is found under its name; only where no header has that name is it
/// found under its short form, and only where none has either is it missing.
pub proof fn header_is_found_by_name_before_short_form(
    headers: Headers,
    name: &str,
    alias: &str,
    i: int,
    found: Option<Header>,
)
    requires
        call_ensures(Headers::find_or, (&headers, name, alias), found),
    ensures
        first_named(headers.entries@, name@, i) ==> (found matches Some(header) && header@
            == headers.entries@[i]@),
        none_named(headers.entries@, name@) && first_named(headers.entries@, alias@, i) ==> (
        found matches Some(header) && header@ == headers.entries@[i]@),
        none_named(headers.entries@, name@) && none_named(headers.entries@, alias@)
            ==> found is None,
{
    lemma_first_named(headers, name@, i);
    lemma_first_named(headers, alias@, i);
}

/// The address and the tag of a header are those of the first header with its
/// name.
pub proof fn address_is_read_from_its_header(
    message: SipMessage,
    name: &str,
    alias: &str,
    i: int,
    uri: Option<String>,
    tag: Option<String>,
    written: String,
)
    requires
        call_ensures(SipMessage::address_uri, (&message, name, alias), uri),
        call_ensures(SipMessage::address_tag, (&message, name, alias), tag),
        first_named(message.headers.entries@, name@, i),
        message.headers.entries@[i].address matches Some(address) ==> call_ensures(
            SipUri::render,
            (&address.uri,),
            written,
        ),
    ensures
        match message.headers.entries@[i].address {
            Some(address) => opt_text(uri) == Some(written@) && opt_text(tag) == opt_text(
                address.tag,
            ),
            None => uri is None && tag is None,
        },
{
    lemma_first_named(message.headers, name@, i);
}

/// The call of a message is named by its Call-ID header.
pub proof fn call_is_named_by_its_header(message: SipMessage, i: int, id: Option<String>)
    requires
        call_ensures(SipMessage::call_id, (&message,), id),
    ensures
        first_named(message.headers.entries@, "Call-ID"@, i) ==> opt_text(id) == Some(
            message.headers.entries@[i].value@,
        ),
        none_named(message.headers.entries@, "Call-ID"@) && first_named(
            message.headers.entries@,
            "i"@,
            i,
        ) ==> opt_text(id) == Some(message.headers.entries@[i].value@),
{
    lemma_first_named(message.headers, "Call-ID"@, i);
    lemma_first_named(message.headers, "i"@, i);
}

/// A dialog is kept under its call with the caller's tag first and with the
/// callee's tag behind it; a tag that is missing has no key.
pub proof fn dialog_is_kept_under_both_tags(
    message: SipMessage,
    id: String,
    caller: Option<String>,
    callee: Option<String>,
    keys: Vec<String>,
    by_caller: String,
    by_callee: String,
)
    requires
        call_ensures(SipMessage::call_id, (&message,), Some(id)),
        call_ensures(SipMessage::address_tag, (&message, "From", "f"), caller),
        call_ensures(SipMessage::address_tag, (&message, "To", "t"), callee),
        call_ensures(SipMessage::dialog_keys, (&message,), keys),
        by_caller@ == id@ + seq!['\0'] + opt_text(caller)->0,
        by_callee@ == id@ + seq!['\0'] + opt_text(callee)->0,
    ensures
        caller is Some && callee is Some ==> texts(keys@) == seq![by_caller@, by_callee@],
        caller is Some && callee is None ==> texts(keys@) == seq![by_caller@],
        caller is None && callee is Some ==> texts(keys@) == seq![by_callee@],
        caller is None && callee is None ==> keys@.len() == 0,
{
    reveal_strlit("\0");
    assert("\0"@ =~= seq!['\0']);
    assert(texts(keys@).len() == keys@.len());
}

/// A request is described by its own message and source: each value that a
/// record or an interception target is given is the one of that name.
pub proof fn request_is_described_by_its_message(
    message: SipMessage,
    transport: String,
    source_ip: String,
    port: u16,
    request: PyRequest,
    from: Option<String>,
    to: Option<String>,
    id: Option<String>,
    line: Option<String>,
    told: (String, String, String, String, String, String, String),
)
    requires
        call_ensures(PyRequest::new, (message, transport, source_ip, port), request),
        call_ensures(SipMessage::address_uri, (&message, "From", "f"), from),
        call_ensures(SipMessage::address_uri, (&message, "To", "t"), to),
        call_ensures(SipMessage::call_id, (&message,), id),
        call_ensures(SipMessage::request_uri_text, (&message,), line),
        call_ensures(PyRequest::cdr_call_id, (&request,), told.0),
        call_ensures(PyRequest::cdr_from_uri, (&request,), told.1),
        call_ensures(PyRequest::cdr_to_uri, (&request,), told.2),
        call_ensures(PyRequest::cdr_ruri, (&request,), told.3),
        call_ensures(PyRequest::cdr_method, (&request,), told.4),
        call_ensures(PyRequest::cdr_source_ip, (&request,), told.5),
        call_ensures(PyRequest::cdr_transport, (&request,), told.6),
    ensures
        id matches Some(text) ==> told.0@ == text@,
        from matches Some(text) ==> told.1@ == text@,
        to matches Some(text) ==> told.2@ == text@,
        line matches Some(text) ==> told.3@ == text@,
        message@.start matches StartText::Request { method, request_uri } ==> told.4@ == method
            && told.3@ == uri_text(request_uri),
        message@.start is Response ==> told.4@ == ""@ && told.3@ == ""@,
        told.5@ == source_ip@,
        told.6@ == transport@,
        id is None ==> told.0@ == ""@,
        from is None ==> told.1@ == ""@,
        to is None ==> told.2@ == ""@,
{
}

/// An interception target is told of a request by the request's own message and
/// source.
pub proof fn intercepted_request_is_described_by_its_message(
    message: SipMessage,
    transport: String,
    source_ip: String,
    port: u16,
    request: PyRequest,
    from: Option<String>,
    to: Option<String>,
    id: Option<String>,
    line: Option<String>,
    ip: Option<IpAddr>,
    source: &str,
    shown: &str,
    li_id: String,
    li: (Option<String>, Option<String>, Option<String>, Option<IpAddr>),
)
    requires
        call_ensures(PyRequest::new, (message, transport, source_ip, port), request),
        call_ensures(SipMessage::address_uri, (&message, "From", "f"), from),
        call_ensures(SipMessage::address_uri, (&message, "To", "t"), to),
        call_ensures(SipMessage::call_id, (&message,), id),
        call_ensures(SipMessage::request_uri_text, (&message,), line),
        source@ == source_ip@,
        call_ensures(IpAddr::parse, (source,), ip),
        call_ensures(PyRequest::source_ip_str, (&request,), shown),
        call_ensures(PyRequest::li_call_id, (&request,), li_id),
        call_ensures(PyRequest::li_from_uri, (&request,), li.0),
        call_ensures(PyRequest::li_to_uri, (&request,), li.1),
        call_ensures(PyRequest::li_ruri, (&request,), li.2),
        call_ensures(PyRequest::li_source_ip, (&request,), li.3),
    ensures
        id matches Some(text) ==> li_id@ == text@,
        opt_text(li.0) == opt_text(from),
        opt_text(li.1) == opt_text(to),
        opt_text(li.2) == opt_text(line),
        li.3 == ip,
        shown@ == source_ip@,
{
}

/// A request keeps the answer and the user that were last set, and setting one
/// leaves the other and the message alone.
pub proof fn request_keeps_answer_and_user(
    answered: &mut PyRequest,
    code: u16,
    reason: String,
    after: PyRequest,
    action: &RequestAction,
    named: &mut PyRequest,
    username: String,
    kept: PyRequest,
    user: Option<&str>,
)
    requires
        call_ensures(PyRequest::set_reply, (answered, code, reason), ()),
        call_ensures(PyRequest::action, (&after,), action),
        call_ensures(PyRequest::set_auth_user, (named, username), ()),
        call_ensures(PyRequest::get_auth_user, (&kept,), user),
    ensures
        after == *final(answered) ==> action@ == (crate::request::RequestActionText::Reply {
            code,
            reason: reason@,
            reliable: false,
        }),
        final(answered)@.message == old(answered)@.message,
        final(answered)@.auth_user == old(answered)@.auth_user,
        kept == *final(named) ==> opt_str(user) == Some(username@),
        final(named)@.message == old(named)@.message,
        final(named)@.action == old(named)@.action,
{
}

/// A call is described by its own message and source, as a request is; a message
/// that is no request counts as an INVITE.
pub proof fn call_is_described_by_its_message(
    name: String,
    message: SipMessage,
    source_ip: String,
    transport: String,
    call: PyCall,
    from: Option<String>,
    to: Option<String>,
    id: Option<String>,
    line: Option<String>,
    told: (String, String, String, String, String, String, String),
)
    requires
        call_ensures(PyCall::new, (name, message, source_ip, transport), call),
        call_ensures(SipMessage::address_uri, (&message, "From", "f"), from),
        call_ensures(SipMessage::address_uri, (&message, "To", "t"), to),
        call_ensures(SipMessage::call_id, (&message,), id),
        call_ensures(SipMessage::request_uri_text, (&message,), line),
        call_ensures(PyCall::cdr_call_id, (&call,), told.0),
        call_ensures(PyCall::cdr_from_uri, (&call,), told.1),
        call_ensures(PyCall::cdr_to_uri, (&call,), told.2),
        call_ensures(PyCall::cdr_ruri, (&call,), told.3),
        call_ensures(PyCall::cdr_method, (&call,), told.4),
        call_ensures(PyCall::cdr_source_ip, (&call,), told.5),
        call_ensures(PyCall::cdr_transport, (&call,), told.6),
    ensures
        id matches Some(text) ==> told.0@ == text@,
        from matches Some(text) ==> told.1@ == text@,
        to matches Some(text) ==> told.2@ == text@,
        line matches Some(text) ==> told.3@ == text@,
        message@.start matches StartText::Request { method, request_uri } ==> told.4@ == method
            && told.3@ == uri_text(request_uri),
        message@.start is Response ==> told.4@ == "INVITE"@,
        told.5@ == source_ip@,
        told.6@ == transport@,
{
}

/// An interception target is told of a call by the call's own message and source.
pub proof fn intercepted_call_is_described_by_its_message(
    name: String,
    message: SipMessage,
    source_ip: String,
    transport: String,
    call: PyCall,
    from: Option<String>,
    to: Option<String>,
    id: Option<String>,
    line: Option<String>,
    ip: Option<IpAddr>,
    source: &str,
    shown: &str,
    li_id: String,
    li: (Option<String>, Option<String>, Option<String>, Option<IpAddr>),
)
    requires
        call_ensures(PyCall::new, (name, message, source_ip, transport), call),
        call_ensures(SipMessage::address_uri, (&message, "From", "f"), from),
        call_ensures(SipMessage::address_uri, (&message, "To", "t"), to),
        call_ensures(SipMessage::call_id, (&message,), id),
        call_ensures(SipMessage::request_uri_text, (&message,), line),
        source@ == source_ip@,
        call_ensures(IpAddr::parse, (source,), ip),
        call_ensures(PyCall::source_ip_str, (&call,), shown),
        call_ensures(PyCall::li_call_id, (&call,), li_id),
        call_ensures(PyCall::li_from_uri, (&call,), li.0),
        call_ensures(PyCall::li_to_uri, (&call,), li.1),
        call_ensures(PyCall::li_ruri, (&call,), li.2),
        call_ensures(PyCall::li_source_ip, (&call,), li.3),
    ensures
        id matches Some(text) ==> li_id@ == text@,
        opt_text(li.0) == opt_text(from),
        opt_text(li.1) == opt_text(to),
        opt_text(li.2) == opt_text(line),
        li.3 == ip,
        shown@ == source_ip@,
{
}

/// The charging record of a call is looked for under the call's own key, then
/// under the key that charging gave it, then under the keys of its dialog; that
/// of a request under the latter two.
pub proof fn charging_record_is_looked_for_in_order(
    name: String,
    message: SipMessage,
    source_ip: String,
    transport: String,
    call: PyCall,
    port: u16,
    request: PyRequest,
    key: String,
    dialog: Vec<String>,
    of_call: Vec<String>,
    of_request: Vec<String>,
    own: Vec<String>,
    sessions: Vec<String>,
)
    requires
        call_ensures(PyCall::new, (name, message, source_ip, transport), call),
        call_ensures(PyRequest::new, (message, transport, source_ip, port), request),
        call_ensures(SipMessage::dialog_keys, (&message,), dialog),
        call_ensures(PyCall::cdr_rf_dialog_key_candidates, (&call, Some(key)), of_call),
        call_ensures(PyRequest::cdr_rf_dialog_key_candidates, (&request, Some(key)), of_request),
        call_ensures(PyCall::cdr_session_key_candidates, (&call,), own),
        call_ensures(PyRequest::cdr_session_key_candidates, (&request,), sessions),
    ensures
        texts(of_call@) == seq!["b2bua:"@ + name@, key@] + texts(dialog@),
        texts(of_request@) == seq![key@] + texts(dialog@),
        texts(own@) == seq![name@],
        texts(sessions@) == texts(dialog@),
{
    assert(seq!["b2bua:"@ + name@] + seq![key@] =~= seq!["b2bua:"@ + name@, key@]);
}

/// A charging parameter is set on the caller's side of the dialog, under the name
/// and with the value that the script gave.
pub proof fn charging_parameter_is_set_as_given(
    call: PyCall,
    message: SipMessage,
    name: &str,
    value: &str,
    id: Option<String>,
    tag: Option<String>,
    param: Option<ChargingParam>,
)
    requires
        call@.message == message@,
        call_ensures(SipMessage::call_id, (&message,), id),
        call_ensures(SipMessage::address_tag, (&message, "From", "f"), tag),
        call_ensures(PyCall::set_charging_param, (&call, name, value), param),
    ensures
        param is Some <==> id is Some && tag is Some,
        param matches Some(p) ==> p.name@ == name@ && p.value@ == value@ && p.dialog_key@
            == opt_text(id)->0 + seq!['\0'] + opt_text(tag)->0,
{
    reveal_strlit("\0");
    assert("\0"@ =~= seq!['\0']);
}

/// A route is asked for with what the call shows: its identifier, its two
/// parties, the number that was dialled, and where it came from.
pub proof fn route_is_asked_for_with_what_the_call_shows(
    name: String,
    message: SipMessage,
    source_ip: String,
    transport: String,
    call: PyCall,
    version: &str,
    trunk_group: Option<String>,
    attributes: Vec<(String, String)>,
    asked: LcrRequest,
    from: Option<String>,
    to: Option<String>,
    i: int,
)
    requires
        call_ensures(PyCall::new, (name, message, source_ip, transport), call),
        call_ensures(PyCall::lcr_request, (&call, version, trunk_group, attributes), asked),
        call_ensures(SipMessage::address_uri, (&message, "From", "From"), from),
        call_ensures(SipMessage::address_uri, (&message, "To", "To"), to),
    ensures
        asked@.version == version@,
        first_named(message.headers.entries@, "Call-ID"@, i) ==> asked@.call_id
            == message.headers.entries@[i].value@,
        from matches Some(text) ==> asked@.from == text@,
        to matches Some(text) ==> asked@.to == text@,
        (message@.start matches StartText::Request { method, request_uri } && request_uri.user
            is Some) ==> asked@.dialed_number
            == message@.start->request_uri.user->0,
        (message@.start is Response || message@.start->request_uri.user is None) && first_named(
            message.headers.entries@,
            "To"@,
            i,
        ) && (message.headers.entries@[i].address matches Some(a) && a.uri.user is Some)
            ==> asked@.dialed_number == opt_text(message.headers.entries@[i].address->0.uri.user)->0,
        asked@.ip == source_ip@,
        asked@.transport == transport@,
        asked@.trunk_group == opt_text(trunk_group),
        asked@.attributes == pairs_text(attributes@),
{
    lemma_first_named(message.headers, "Call-ID"@, i);
    lemma_first_named(message.headers, "To"@, i);
}

/// A flow shows its own ends: the far one as remote, the near one as local.
pub proof fn flow_shows_its_ends(
    flow: PyFlow,
    far: String,
    near: String,
    remote: String,
    local: String,
    transport: &str,
    id: u64,
    other: PyFlow,
    same: bool,
)
    requires
        call_ensures(SocketAddr::render, (&flow.source_addr,), far),
        call_ensures(SocketAddr::render, (&flow.local_addr,), near),
        call_ensures(PyFlow::remote_addr, (&flow,), remote),
        call_ensures(PyFlow::local_addr, (&flow,), local),
        call_ensures(PyFlow::transport, (&flow,), transport),
        call_ensures(PyFlow::connection_id, (&flow,), id),
        call_ensures(PyFlow::same_flow, (&flow, &other), same),
    ensures
        remote@ == far@,
        local@ == near@,
        transport@ == flow.transport@,
        id == flow.connection_id,
        same <==> flow.transport@ == other.transport@ && flow.source_addr == other.source_addr
            && flow.local_addr == other.local_addr && flow.connection_id == other.connection_id,
{
}

/// A contact is reached at its own address and along its own path, over the flow
/// it registered on where that flow ends here.
pub proof fn contact_is_reached_along_its_path(
    contact: PyContact,
    target: (String, Option<PyFlow>, Vec<String>),
)
    requires
        call_ensures(PyContact::fork_target, (&contact,), target),
    ensures
        target.0@ == contact.uri@,
        contact.is_local ==> opt_flow(target.1) == opt_flow(contact.flow),
        !contact.is_local ==> target.1 is None,
        texts(target.2@) == texts(contact.path@),
{
    let branch = crate::call::action::BranchText {
        uri: target.0@,
        flow: opt_flow(target.1),
        path: texts(target.2@),
    };
    assert(branch == crate::call::action::contact_branch(contact));
}

/// An attempt at a carrier and a replaced dialog are told value by value under
/// their keys.
pub proof fn attempt_and_replaces_are_told_under_their_keys(
    attempt: RouteAttempt,
    told: PyValue,
    replaces: Replaces,
    shown: PyValue,
)
    requires
        call_ensures(RouteAttempt::to_dict, (&attempt,), told),
        call_ensures(Replaces::to_dict, (&replaces,), shown),
    ensures
        told@ matches PyText::Dict(d) && {
            &&& entry(d, "carrier_id"@) == Some(PyText::Text(attempt.carrier_id@))
            &&& entry(d, "status"@) == Some(PyText::Int(attempt.status as int))
            &&& entry(d, "elapsed_ms"@) == Some(PyText::Int(attempt.elapsed_ms as int))
            &&& entry(d, "dialed"@) == Some(PyText::Bool(attempt.dialed))
        },
        shown@ matches PyText::Dict(d) && {
            &&& entry(d, "call_id"@) == Some(PyText::Text(replaces.call_id@))
            &&& entry(d, "from_tag"@) == Some(PyText::Text(replaces.from_tag@))
            &&& entry(d, "to_tag"@) == Some(PyText::Text(replaces.to_tag@))
            &&& entry(d, "early_only"@) == Some(PyText::Bool(replaces.early_only))
        },
{
    reveal_strlit("carrier_id");
    reveal_strlit("status");
    reveal_strlit("elapsed_ms");
    reveal_strlit("dialed");
    reveal_strlit("call_id");
    reveal_strlit("from_tag");
    reveal_strlit("to_tag");
    reveal_strlit("early_only");
    assert("carrier_id"@[0] == 'c' && "status"@[0] == 's' && "elapsed_ms"@[0] == 'e'
        && "dialed"@[0] == 'd');
    assert("call_id"@[0] == 'c' && "from_tag"@[0] == 'f' && "to_tag"@[0] == 't'
        && "early_only"@[0] == 'e');
    reveal_with_fuel(entry, 5);
    let d = told@->Dict_0;
    assert(d.skip(1)[0] == d[1] && d.skip(1).skip(1)[0] == d[2] && d.skip(1).skip(1).skip(1)[0]
        == d[3]);
    let e = shown@->Dict_0;
    assert(e.skip(1)[0] == e[1] && e.skip(1).skip(1)[0] == e[2] && e.skip(1).skip(1).skip(1)[0]
        == e[3]);
}

proof fn lemma_privacy_kept(h: Seq<HeaderText>)
    ensures
        header_value(restricted(h), "Privacy"@) == Some(
            private_value(header_value(h, "Privacy"@)),
        ),
{
    reveal_strlit("From");
    reveal_strlit("Privacy");
    reveal_strlit("P-Preferred-Identity");
    assert(crate::text::lower("From"@).len() == 4);
    assert(crate::text::lower("Privacy"@).len() == 7);
    assert(crate::text::lower("P-Preferred-Identity"@).len() == 20);
    let hidden = anonymous_from(h);
    if let Some(address) = address_in(h, "From"@, "f"@) {
        other_headers_are_kept(
            h,
            address_header("From"@, anonymous(address.tag)),
            "Privacy"@,
        );
    }
    assert(header_of(hidden, "Privacy"@) == header_of(h, "Privacy"@));
    let header = HeaderText {
        name: "Privacy"@,
        value: private_value(header_value(hidden, "Privacy"@)),
        address: None,
    };
    set_header_is_found(hidden, header);
    other_headers_are_kept(
        with_header(hidden, header),
        HeaderText { name: "P-Preferred-Identity"@, value: Seq::empty(), address: None },
        "Privacy"@,
    );
}

/// A caller that is restricted is shown as anonymous with the tag it had, asks
/// for privacy, and prefers no identity; what is asserted of it stays.
pub proof fn restricted_caller_is_anonymous(
    call: &mut PyCall,
    after: PyCall,
    from: Option<String>,
    preferred: bool,
    privacy: Option<String>,
    tag: Option<Seq<char>>,
)
    requires
        address_in(old(call)@.message.headers, "From"@, "f"@) matches Some(address) && tag
            == address.tag,
        call_ensures(PyCall::restrict_caller_id, (call,), ()),
        call_ensures(PyCall::get_header, (&after, "From"), from),
        call_ensures(PyCall::has_header, (&after, "P-Preferred-Identity"), preferred),
        call_ensures(PyCall::get_header, (&after, "Privacy"), privacy),
    ensures
        after == *final(call) ==> match header_value(old(call)@.message.headers, "Privacy"@) {
            None => opt_text(privacy) == Some("id"@),
            Some(before) => opt_text(privacy) == Some(before) || opt_text(privacy) == Some(
                before + ";id"@,
            ),
        },
        after == *final(call) ==> opt_text(from) == Some(
            "\"Anonymous\" <sip:anonymous@anonymous.invalid>"@ + match tag {
                Some(tag) => ";tag="@ + tag,
                None => Seq::empty(),
            },
        ),
        after == *final(call) ==> !preferred,
        header_of(final(call)@.message.headers, "P-Asserted-Identity"@) == header_of(
            old(call)@.message.headers,
            "P-Asserted-Identity"@,
        ),
        final(call)@.message.start == old(call)@.message.start,
        final(call)@.message.body == old(call)@.message.body,
        final(call)@.action == old(call)@.action,
{
    let h = old(call)@.message.headers;
    restricted_call_hides_its_caller(h);
    lemma_privacy_kept(h);
    assert(address_tag(h, "From"@, "f"@) == tag);
    reveal_strlit("\"Anonymous\" <sip:anonymous@anonymous.invalid>");
    reveal_strlit("\"");
    reveal_strlit("Anonymous");
    reveal_strlit("\" <");
    reveal_strlit("sip");
    reveal_strlit(":");
    reveal_strlit("anonymous");
    reveal_strlit("@");
    reveal_strlit("anonymous.invalid");
    reveal_strlit("");
    reveal_strlit(">");
    let a = anonymous(tag);
    let rest = match tag {
        Some(tag) => ";tag="@ + tag,
        None => Seq::<char>::empty(),
    };
    assert(address_text(a) =~= "\"Anonymous\" <sip:anonymous@anonymous.invalid>"@ + rest);
}

/// A number that the caller is shown with is the user of every identity the call
/// has, and the call says whether it had any.
pub proof fn presented_number_is_in_every_identity(
    call: &mut PyCall,
    number: &str,
    shown: bool,
)
    requires
        call_ensures(PyCall::set_caller_id, (call, number), shown),
    ensures
        ({
            let before = old(call)@.message.headers;
            let after = final(call)@.message.headers;
            &&& address_in(before, "From"@, "f"@) is Some ==> shown && (address_in(
                after,
                "From"@,
                "f"@,
            ) matches Some(a) && a.uri.user == Some(number@))
            &&& address_in(before, "P-Asserted-Identity"@, "P-Asserted-Identity"@) is Some
                ==> shown && (address_in(after, "P-Asserted-Identity"@, "P-Asserted-Identity"@)
                matches Some(a) && a.uri.user == Some(number@))
            &&& address_in(before, "P-Preferred-Identity"@, "P-Preferred-Identity"@) is Some
                ==> shown && (address_in(after, "P-Preferred-Identity"@, "P-Preferred-Identity"@)
                matches Some(a) && a.uri.user == Some(number@))
            &&& address_in(before, "From"@, "f"@) is None && address_in(
                before,
                "P-Asserted-Identity"@,
                "P-Asserted-Identity"@,
            ) is None && address_in(before, "P-Preferred-Identity"@, "P-Preferred-Identity"@)
                is None ==> !shown
        }),
        final(call)@.message.start == old(call)@.message.start,
{
    let h = old(call)@.message.headers;
    let n = number@;
    let pai = "P-Asserted-Identity"@;
    let ppi = "P-Preferred-Identity"@;
    lemma_identity_names();
    let one = with_user_in(h, "From"@, "f"@, n);
    let two = with_user_in(one, pai, pai, n);
    let three = with_user_in(two, ppi, ppi, n);
    assert(three == presented(h, n));
    if address_in(h, "From"@, "f"@) is Some {
        rewriting_changes_one_part(h, "From"@, "f"@, n, pai);
        rewriting_changes_one_part(h, "From"@, "f"@, n, ppi);
        presented_number_keeps_the_tag(h, n);
    }
    assert(header_of(one, pai) == header_of(h, pai));
    assert(header_of(one, ppi) == header_of(h, ppi));
    if address_in(one, pai, pai) is Some {
        rewriting_changes_one_part(one, pai, pai, n, ppi);
    }
    assert(header_of(two, ppi) == header_of(one, ppi));
    if address_in(two, ppi, ppi) is Some {
        rewriting_changes_one_part(two, ppi, ppi, n, pai);
    }
    assert(header_of(three, pai) == header_of(two, pai));
}

proof fn lemma_identity_names()
    ensures
        !same_name("From"@, "P-Asserted-Identity"@),
        !same_name("From"@, "P-Preferred-Identity"@),
        !same_name("P-Asserted-Identity"@, "P-Preferred-Identity"@),
        !same_name("P-Preferred-Identity"@, "P-Asserted-Identity"@),
{
    reveal_strlit("From");
    reveal_strlit("P-Asserted-Identity");
    reveal_strlit("P-Preferred-Identity");
    assert(crate::text::lower("From"@).len() == 4);
    assert(crate::text::lower("P-Asserted-Identity"@).len() == 19);
    assert(crate::text::lower("P-Preferred-Identity"@).len() == 20);
}

proof fn lemma_without_prefix_adds_none(h: Seq<HeaderText>, prefix: Seq<char>)
    ensures
        forall|i: int|
            0 <= i < without_prefix(h, prefix).len() ==> h.contains(
                #[trigger] without_prefix(h, prefix)[i],
            ),
    decreases h.len(),
{
    if h.len() > 0 {
        let rest = h.drop_last();
        lemma_without_prefix_adds_none(rest, prefix);
        let r = without_prefix(h, prefix);
        assert forall|i: int| 0 <= i < r.len() implies h.contains(#[trigger] r[i]) by {
            let kept = without_prefix(rest, prefix);
            if i < kept.len() {
                assert(r[i] == kept[i]);
                let j = choose|j: int| 0 <= j < rest.len() && rest[j] == kept[i];
                assert(h[j] == rest[j]);
            } else {
                assert(r[i] == h[h.len() - 1]);
            }
        }
    }
}

/// Removing headers by the start of their name removes exactly those whose name
/// starts so, in any case, and adds none.
pub proof fn headers_are_removed_by_prefix(call: &mut PyCall, prefix: &str, i: int)
    requires
        call_ensures(PyCall::remove_headers_matching, (call, prefix), ()),
    ensures
        ({
            let before = old(call)@.message.headers;
            let after = final(call)@.message.headers;
            &&& 0 <= i < after.len() ==> before.contains(after[i]) && !starts_with(
                lowercase(after[i].name),
                lowercase(prefix@),
            )
            &&& 0 <= i < before.len() && !starts_with(lowercase(before[i].name), lowercase(prefix@))
                ==> after.contains(before[i])
        }),
        final(call)@.message.start == old(call)@.message.start,
        final(call)@.action == old(call)@.action,
{
    removed_prefix_is_gone(old(call)@.message.headers, prefix@);
    lemma_without_prefix_adds_none(old(call)@.message.headers, prefix@);
}

/// A network holds exactly the sources whose address it covers: one listed
/// network that covers the source is enough, and without one the source is
/// outside.
pub proof fn source_is_inside_a_covering_network(
    call: PyCall,
    source: &str,
    ip: IpAddr,
    networks: Vec<String>,
    i: int,
    text: &str,
    parsed: Option<crate::net::IpNetwork>,
    covers: bool,
    inside: bool,
)
    requires
        call_ensures(PyCall::source_ip, (&call,), source),
        call_ensures(IpAddr::parse, (source,), Some(ip)),
        0 <= i < networks@.len(),
        text@ == networks@[i]@,
        call_ensures(crate::net::IpNetwork::parse, (text,), parsed),
        parsed matches Some(network) ==> call_ensures(
            crate::net::IpNetwork::contains,
            (&network, &ip),
            covers,
        ),
        call_ensures(PyCall::source_ip_in, (&call, networks), Ok(inside)),
    ensures
        parsed is Some && covers ==> inside,
        networks@.len() == 1 && inside ==> parsed is Some && covers,
{
    let list = texts(networks@);
    assert(list.len() == networks@.len());
    assert(list[i] == networks@[i]@);
    if parsed is Some && covers {
        assert(crate::call::names_network_of(list[i], ip));
    }
}

} // verus!
