//! Laws of what is shown to a script, and of errors.

use crate::auth::aka::send_ims_challenge;
use crate::call::action::PyMediaHandle;
use crate::call::PyCall;
use crate::error::{ErrorKind, ScriptError};
use crate::gateway::{
    group_index, removed_group_is_gone, Algorithm, Destination, PyDestination, PyGateway,
};
use crate::hex::hex_text;
use crate::ipsec::Transport;
use crate::net::SocketAddr;
use crate::numbers::{default_identity_headers, IdentityHeader, NumberRuntime, RuntimeSlot};
use crate::pyvalue::{
    assign, assigned_entry_is_found, entries_text, entry, items_text, string_entries,
    to_string_entries, PyText, PyValue,
};
use crate::request::{PyRequest, RequestActionText};
use crate::sip::{header_value, set_header_is_found};
use crate::text::{assoc, contains_text, lowercase, opt_text, pairs_text, put_value_is_found, texts};
use vstd::prelude::*;
use vstd::string::*;

verus! {

/// A destination is shown with its own address, weight, priority, attributes and
/// health, and its transport is named in its address where that is not UDP and
/// the address does not name one yet.
pub proof fn destination_shows_its_parts(
    dest: Destination,
    shown: PyDestination,
    uri: &str,
    address: &str,
    written: String,
    weight: u32,
    priority: u32,
    healthy: bool,
    truth: bool,
    name: &str,
    attr: Option<String>,
)
    requires
        call_ensures(PyDestination::from_destination, (&dest,), shown),
        call_ensures(PyDestination::uri, (&shown,), uri),
        call_ensures(PyDestination::address, (&shown,), address),
        call_ensures(SocketAddr::render, (&dest.address,), written),
        call_ensures(PyDestination::weight, (&shown,), weight),
        call_ensures(PyDestination::priority, (&shown,), priority),
        call_ensures(PyDestination::healthy, (&shown,), healthy),
        call_ensures(PyDestination::__bool__, (&shown,), truth),
        call_ensures(PyDestination::attr, (&shown, name), attr),
    ensures
        weight == dest.weight && priority == dest.priority,
        healthy == dest.healthy && truth == dest.healthy,
        address@ == written@,
        opt_text(attr) == assoc(pairs_text(dest.attrs@), name@),
        dest.transport is Udp || contains_text(lowercase(dest.uri@), ";transport="@) ==> uri@
            == dest.uri@,
        !contains_text(lowercase(dest.uri@), ";transport="@) ==> match dest.transport {
            Transport::Udp => uri@ == dest.uri@,
            Transport::Tcp => uri@ == dest.uri@ + ";transport=tcp"@,
            Transport::Tls => uri@ == dest.uri@ + ";transport=tls"@,
            Transport::Ws => uri@ == dest.uri@ + ";transport=ws"@,
            Transport::Wss => uri@ == dest.uri@ + ";transport=wss"@,
            Transport::Sctp => uri@ == dest.uri@ + ";transport=sctp"@,
        },
{
}

/// A destination that a script makes shows what it was made with.
pub proof fn made_destination_shows_what_it_was_made_with(
    uri: String,
    address: String,
    healthy: bool,
    weight: u32,
    priority: u32,
    attrs: Vec<(String, String)>,
    dest: PyDestination,
    a: &str,
    b: &str,
    c: bool,
    d: u32,
    e: u32,
)
    requires
        call_ensures(PyDestination::new, (uri, address, healthy, weight, priority, attrs), dest),
        call_ensures(PyDestination::uri, (&dest,), a),
        call_ensures(PyDestination::address, (&dest,), b),
        call_ensures(PyDestination::healthy, (&dest,), c),
        call_ensures(PyDestination::weight, (&dest,), d),
        call_ensures(PyDestination::priority, (&dest,), e),
    ensures
        a@ == uri@ && b@ == address@ && c == healthy && d == weight && e == priority,
{
}

/// A group that is removed is gone, the others stay in their order, and whether
/// there was one is told.
pub proof fn removed_group_leaves_the_others(
    gateway: &mut PyGateway,
    name: &str,
    removed: bool,
    after: PyGateway,
    names: Vec<String>,
    algorithm: Option<Algorithm>,
    i: int,
)
    requires
        old(gateway).wf(),
        call_ensures(PyGateway::remove_group, (gateway, name), removed),
        call_ensures(PyGateway::groups, (&after,), names),
        call_ensures(PyGateway::algorithm, (&after, name), algorithm),
    ensures
        removed <==> exists|k: int|
            0 <= k < old(gateway)@.len() && (#[trigger] old(gateway)@[k]).name == name@,
        after == *final(gateway) ==> algorithm is None,
        after == *final(gateway) ==> names@.len() == old(gateway)@.len() - (if removed {
            1int
        } else {
            0int
        }),
        0 <= i < old(gateway)@.len() && old(gateway)@[i].name != name@ ==> exists|k: int|
            0 <= k < final(gateway)@.len() && #[trigger] final(gateway)@[k] == old(gateway)@[i],
{
    let before = old(gateway)@;
    let left = final(gateway)@;
    removed_group_is_gone(before, name@);
    lemma_group_index(before, name@, 0);
    let at = group_index(before, name@, 0);
    assert(texts(names@).len() == names@.len());
    if at < before.len() {
        assert(before[at].name == name@);
    }
    if 0 <= i < before.len() && before[i].name != name@ {
        if at < before.len() {
            assert(left == before.remove(at));
            if i < at {
                assert(left[i] == before[i]);
            } else {
                assert(left[i - 1] == before[i]);
            }
        } else {
            assert(left[i] == before[i]);
        }
    }
}

proof fn lemma_group_index(groups: Seq<crate::gateway::GroupText>, name: Seq<char>, from: int)
    requires
        0 <= from <= groups.len(),
    ensures
        from <= group_index(groups, name, from) <= groups.len(),
        group_index(groups, name, from) < groups.len() ==> groups[group_index(
            groups,
            name,
            from,
        )].name == name,
        forall|k: int|
            from <= k < group_index(groups, name, from) ==> (#[trigger] groups[k]).name != name,
    decreases groups.len() - from,
{
    if from < groups.len() && groups[from].name != name {
        lemma_group_index(groups, name, from + 1);
    }
}

/// An error is of the kind it was made as, keeps its message, and is written as
/// the name of its kind, a colon and the message.
pub proof fn error_is_of_its_kind(
    message: String,
    a: ScriptError,
    b: ScriptError,
    c: ScriptError,
    d: ScriptError,
    e: ScriptError,
    shown: String,
    error: ScriptError,
)
    requires
        call_ensures(ScriptError::value, (message,), a),
        call_ensures(ScriptError::type_, (message,), b),
        call_ensures(ScriptError::key, (message,), c),
        call_ensures(ScriptError::runtime, (message,), d),
        call_ensures(ScriptError::overflow, (message,), e),
        call_ensures(ScriptError::display, (&error,), shown),
    ensures
        a.kind == ErrorKind::Value && a.message@ == message@,
        b.kind == ErrorKind::Type && b.message@ == message@,
        c.kind == ErrorKind::Key && c.message@ == message@,
        d.kind == ErrorKind::Runtime && d.message@ == message@,
        e.kind == ErrorKind::Overflow && e.message@ == message@,
        shown@ == (match error.kind {
            ErrorKind::Value => "ValueError"@,
            ErrorKind::Type => "TypeError"@,
            ErrorKind::Key => "KeyError"@,
            ErrorKind::Runtime => "RuntimeError"@,
            ErrorKind::Overflow => "OverflowError"@,
        }) + ": "@ + error.message@,
{
}

/// A kind of value goes by its name.
pub proof fn value_is_of_its_kind(value: PyValue, name: String, nothing: bool)
    requires
        call_ensures(PyValue::kind_name, (&value,), name),
        call_ensures(PyValue::is_nothing, (&value,), nothing),
    ensures
        nothing <==> value is Nothing,
        match value {
            PyValue::Nothing => name@ == "NoneType"@,
            PyValue::Bool(_) => name@ == "bool"@,
            PyValue::Int(_) => name@ == "int"@,
            PyValue::Float(_) => name@ == "float"@,
            PyValue::Text(_) => name@ == "str"@,
            PyValue::Bytes(_) => name@ == "bytes"@,
            PyValue::List(_) => name@ == "list"@,
            PyValue::Tuple(_) => name@ == "tuple"@,
            PyValue::Dict(_) => name@ == "dict"@,
            PyValue::Other(kind) => name@ == kind@,
        },
{
}

/// What is assigned under a key is what is found there, and other keys keep
/// theirs.
pub proof fn assigned_value_is_found(
    d: Vec<(String, PyValue)>,
    key: String,
    value: PyValue,
    after: Vec<(String, PyValue)>,
    other: Seq<char>,
)
    requires
        call_ensures(assign, (d, key, value), after),
        other != key@,
    ensures
        entry(entries_text(after@), key@) == Some(value@),
        entry(entries_text(after@), other) == entry(entries_text(d@), other),
{
    assigned_entry_is_found(entries_text(d@), key@, value@, other);
}

proof fn lemma_string_entries(items: Seq<(PyText, PyText)>, key: Seq<char>)
    ensures
        forall|i: int|
            0 <= i < items.len() && (#[trigger] items[i]).0 == PyText::Text(key) && items[i].1 is Text
                && (forall|j: int|
                i < j < items.len() ==> !((#[trigger] items[j]).0 == PyText::Text(key)
                    && items[j].1 is Text)) ==> assoc(string_entries(items), key) == Some(
                items[i].1->Text_0,
            ),
        (forall|i: int|
            0 <= i < items.len() ==> !((#[trigger] items[i]).0 == PyText::Text(key)
                && items[i].1 is Text)) ==> assoc(string_entries(items), key) is None,
    decreases items.len(),
{
    if items.len() > 0 {
        let before = items.drop_last();
        lemma_string_entries(before, key);
        let (k, v) = items.last();
        assert(items[items.len() - 1] == items.last());
        if k is Text && v is Text {
            put_value_is_found(string_entries(before), k->Text_0, v->Text_0, key);
        }
        if forall|i: int|
            0 <= i < items.len() ==> !((#[trigger] items[i]).0 == PyText::Text(key)
                && items[i].1 is Text) {
            assert forall|i: int| 0 <= i < before.len() implies !((#[trigger] before[i]).0
                == PyText::Text(key) && before[i].1 is Text) by {
                assert(items[i] == before[i]);
            }
        }
        assert forall|i: int|
            0 <= i < items.len() && (#[trigger] items[i]).0 == PyText::Text(key) && items[i].1 is Text
                && (forall|j: int|
                i < j < items.len() ==> !((#[trigger] items[j]).0 == PyText::Text(key)
                    && items[j].1 is Text)) implies assoc(string_entries(items), key) == Some(
            items[i].1->Text_0,
        ) by {
            if i < before.len() {
                assert(before[i] == items[i]);
                assert forall|j: int| i < j < before.len() implies !((#[trigger] before[j]).0
                    == PyText::Text(key) && before[j].1 is Text) by {
                    assert(items[j] == before[j]);
                }
                assert(!(items[items.len() - 1].0 == PyText::Text(key) && items[items.len() - 1].1
                    is Text));
            }
        }
    }
}

/// Of the pairs that a script hands over, those of two texts are kept, the last
/// under a key counting; the others are passed over.
pub proof fn pairs_of_texts_are_kept(
    given: Vec<(PyValue, PyValue)>,
    kept: Vec<(String, String)>,
    i: int,
    key: Seq<char>,
    value: Seq<char>,
)
    requires
        call_ensures(to_string_entries, (&given,), kept),
        0 <= i < given@.len(),
        given@[i].0@ == PyText::Text(key),
        given@[i].1@ == PyText::Text(value),
        forall|j: int|
            i < j < given@.len() ==> !((#[trigger] given@[j]).0@ == PyText::Text(key)
                && given@[j].1@ is Text),
    ensures
        assoc(pairs_text(kept@), key) == Some(value),
{
    let items = items_text(given@);
    lemma_string_entries(items, key);
    assert(items[i] == (given@[i].0@, given@[i].1@));
    assert forall|j: int| i < j < items.len() implies !((#[trigger] items[j]).0 == PyText::Text(key)
        && items[j].1 is Text) by {
        assert(items[j] == (given@[j].0@, given@[j].1@));
    }
}

/// The media of a call are those that were set, and what is in its body is what
/// its message carries.
pub proof fn call_shows_its_media_and_body(
    call: &mut PyCall,
    handle: PyMediaHandle,
    after: PyCall,
    shown: &PyMediaHandle,
    body: Option<Vec<u8>>,
)
    requires
        call_ensures(PyCall::set_media, (call, &handle), ()),
        call_ensures(PyCall::media_handle, (&after,), shown),
        call_ensures(PyCall::body, (&after,), body),
    ensures
        after == *final(call) ==> shown@ == handle@,
        final(call)@.message == old(call)@.message,
        final(call)@.action == old(call)@.action,
        match body {
            Some(octets) => octets@ == after@.message.body && octets@.len() > 0,
            None => after@.message.body.len() == 0,
        },
{
}

/// The numbers of a message are looked at in this order where none is given: the
/// caller's, the callee's, then the asserted and the preferred identity.
pub proof fn identities_are_walked_in_order(walk: Vec<IdentityHeader>)
    requires
        call_ensures(default_identity_headers, (), walk),
    ensures
        walk@.len() == 4,
        walk@[0] == IdentityHeader::From,
        walk@[1] == IdentityHeader::To,
        walk@[2] == IdentityHeader::PAssertedIdentity,
        walk@[3] == IdentityHeader::PPreferredIdentity,
{
}

/// The configuration of numbers that is installed first stays.
pub proof fn first_configuration_stays(
    slot: &mut RuntimeSlot,
    first: NumberRuntime,
    again: &mut RuntimeSlot,
    later: NumberRuntime,
    after: RuntimeSlot,
    kept: NumberRuntime,
)
    requires
        old(slot)@ is None,
        call_ensures(RuntimeSlot::set_number_runtime, (slot, first), ()),
        call_ensures(RuntimeSlot::set_number_runtime, (again, later), ()),
        call_ensures(RuntimeSlot::number_runtime, (&after,), kept),
    ensures
        *old(again) == *final(slot) && after == *final(again) ==> kept@ == first@,
{
}

/// A challenge for the terminal carries the realm, the nonce and the keys, each
/// under its own name, and is answered as unauthorized.
pub proof fn ims_challenge_carries_its_keys(
    request: &mut PyRequest,
    realm: &str,
    nonce: &str,
    ck: Vec<u8>,
    ik: Vec<u8>,
)
    requires
        call_ensures(send_ims_challenge, (request, realm, nonce, &Some(ck), &Some(ik)), ()),
    ensures
        header_value(final(request)@.message.headers, "WWW-Authenticate"@) == Some(
            "Digest realm=\""@ + realm@ + "\", nonce=\""@ + nonce@
                + "\", algorithm=AKAv1-MD5, qop=\"auth\", ck=\""@ + hex_text(ck@) + "\", ik=\""@
                + hex_text(ik@) + "\""@,
        ),
        final(request)@.action == (RequestActionText::Reply {
            code: 401,
            reason: "Unauthorized"@,
            reliable: false,
        }),
        final(request)@.auth_user == old(request)@.auth_user,
{
    reveal_strlit("\", algorithm=AKAv1-MD5, qop=\"auth\", ck=\"");
    reveal_strlit("\", algorithm=");
    reveal_strlit("AKAv1-MD5");
    reveal_strlit(", qop=\"auth\"");
    reveal_strlit(", ck=\"");
    reveal_strlit("\"");
    reveal_strlit(", ik=\"");
    reveal_strlit("\", ik=\"");
    assert("\", algorithm=AKAv1-MD5, qop=\"auth\", ck=\""@ =~= "\", algorithm="@ + "AKAv1-MD5"@
        + ", qop=\"auth\""@ + ", ck=\""@);
    assert("\", ik=\""@ =~= "\""@ + ", ik=\""@);
    let value = crate::auth::aka::ims_challenge_text(realm@, nonce@, Some(ck@), Some(ik@));
    set_header_is_found(
        old(request)@.message.headers,
        crate::auth::plain_header("WWW-Authenticate"@, value),
    );
    assert(value =~= "Digest realm=\""@ + realm@ + "\", nonce=\""@ + nonce@
        + "\", algorithm=AKAv1-MD5, qop=\"auth\", ck=\""@ + hex_text(ck@) + "\", ik=\""@ + hex_text(
        ik@,
    ) + "\""@);
}

} // verus!
