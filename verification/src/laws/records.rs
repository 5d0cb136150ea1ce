//! Laws of call detail records and of lawful interception.

use crate::call::{CallText, PyCall};
use crate::cdr::{
    first_session, merged, reached, session_under, sessions_text, stamp, write_cdr, Cdr, CdrFields,
    RfSession, RfText, WriteStep,
};

use crate::li::{AuditEntry, AuditOperation, PyLiNamespace, RecordTarget, SessionQuery};
use crate::net::ip_of;
use crate::request::PyRequest;
use crate::sip::{address_uri, call_id_of, uri_text, SipMessage, StartText};
use crate::text::{assoc, decimal, opt_text, pairs_text, put_value_is_found, texts};
use vstd::prelude::*;
use vstd::string::*;

verus! {

/// What a record says of a request is what the request is: each header, address
/// and name in its own field.
pub proof fn record_fields_describe_the_request(
    message: SipMessage,
    transport: String,
    source_ip: String,
    source_port: u16,
    request: PyRequest,
    charging_key: Option<String>,
    fields: CdrFields,
)
    requires
        call_ensures(PyRequest::new, (message, transport, source_ip, source_port), request),
        call_ensures(CdrFields::from_request, (&request, charging_key), fields),
    ensures
        fields.source_ip@ == source_ip@,
        fields.transport@ == transport@,
        call_id_of(message.headers@) matches Some(id) ==> fields.call_id@ == id,
        address_uri(message.headers@, "From"@, "f"@) matches Some(uri) ==> fields.from_uri@ == uri,
        address_uri(message.headers@, "To"@, "t"@) matches Some(uri) ==> fields.to_uri@ == uri,
        message.start_line@ matches StartText::Request { method, request_uri } ==> fields.method@
            == method && fields.ruri@ == uri_text(request_uri),
        charging_key matches Some(key) ==> fields.dialog_keys@.len() > 0 && fields.dialog_keys@[0]@
            == key@,
{
    assert(texts(fields.dialog_keys@).len() == fields.dialog_keys@.len());
    if charging_key is Some {
        assert(texts(fields.dialog_keys@)[0] == charging_key->0@);
        assert(texts(fields.dialog_keys@)[0] == fields.dialog_keys@[0]@);
    }
}

/// What a record says of a call is what the call is: each header, address and
/// name in its own field, and its own keys before those of the dialog.
pub proof fn record_fields_describe_the_call(
    id: String,
    message: SipMessage,
    source_ip: String,
    transport: String,
    call: PyCall,
    charging_key: Option<String>,
    fields: CdrFields,
)
    requires
        call_ensures(PyCall::new, (id, message, source_ip, transport), call),
        call_ensures(CdrFields::from_call, (&call, charging_key), fields),
    ensures
        fields.source_ip@ == source_ip@,
        fields.transport@ == transport@,
        call_id_of(message.headers@) matches Some(id) ==> fields.call_id@ == id,
        address_uri(message.headers@, "From"@, "f"@) matches Some(uri) ==> fields.from_uri@ == uri,
        address_uri(message.headers@, "To"@, "t"@) matches Some(uri) ==> fields.to_uri@ == uri,
        message.start_line@ matches StartText::Request { method, request_uri } ==> fields.method@
            == method && fields.ruri@ == uri_text(request_uri),
        message.start_line@ is Response ==> fields.method@ == "INVITE"@,
        fields.session_keys@.len() == 1 && fields.session_keys@[0]@ == id@,
        fields.dialog_keys@.len() > 0 && fields.dialog_keys@[0]@ == "b2bua:"@ + id@,
        charging_key matches Some(key) ==> fields.dialog_keys@.len() > 1 && fields.dialog_keys@[1]@
            == key@,
{
    assert(texts(fields.dialog_keys@).len() == fields.dialog_keys@.len());
    assert(texts(fields.session_keys@).len() == fields.session_keys@.len());
    assert(texts(fields.session_keys@)[0] == fields.session_keys@[0]@);
    assert(texts(fields.dialog_keys@)[0] == fields.dialog_keys@[0]@);
    if charging_key is Some {
        assert(texts(fields.dialog_keys@)[1] == fields.dialog_keys@[1]@);
    }
}

/// Of two values that are merged under a key the later is found, and a key that is
/// not merged keeps what it had.
pub proof fn lemma_merged_keeps(
    fields: Seq<(Seq<char>, Seq<char>)>,
    added: Seq<(Seq<char>, Seq<char>)>,
    key: Seq<char>,
)
    ensures
        (forall|i: int| 0 <= i < added.len() ==> (#[trigger] added[i]).0 != key) ==> assoc(
            merged(fields, added),
            key,
        ) == assoc(fields, key),
        forall|i: int|
            0 <= i < added.len() && (#[trigger] added[i]).0 == key && (forall|j: int|
                i < j < added.len() ==> (#[trigger] added[j]).0 != key) ==> assoc(
                merged(fields, added),
                key,
            ) == Some(added[i].1),
    decreases added.len(),
{
    if added.len() > 0 {
        let before = added.drop_last();
        let last = added.last();
        lemma_merged_keeps(fields, before, key);
        put_value_is_found(merged(fields, before), last.0, last.1, key);
        if forall|i: int| 0 <= i < added.len() ==> (#[trigger] added[i]).0 != key {
            assert(added[added.len() - 1].0 != key);
            assert forall|i: int| 0 <= i < before.len() implies (#[trigger] before[i]).0 != key by {
                assert(added[i] == before[i]);
            }
        }
        assert forall|i: int|
            0 <= i < added.len() && (#[trigger] added[i]).0 == key && (forall|j: int|
                i < j < added.len() ==> (#[trigger] added[j]).0 != key) implies assoc(
            merged(fields, added),
            key,
        ) == Some(added[i].1) by {
            if i < before.len() {
                assert(added[added.len() - 1].0 != key);
                assert(before[i] == added[i]);
                assert forall|j: int| i < j < before.len() implies (#[trigger] before[j]).0 != key by {
                    assert(added[j] == before[j]);
                }
            }
        }
    }
}

/// A record that is written on its own carries what was said of the call or
/// request, each value in its own field, and the script's own fields as the
/// script gave them, the last under a key counting.
pub proof fn record_carries_its_fields(
    fields: CdrFields,
    sessions: Vec<RfSession>,
    extra: Vec<(String, String)>,
    record: Cdr,
    i: int,
)
    requires
        call_ensures(write_cdr, (fields, &sessions, &extra), record),
    ensures
        record.call_id@ == fields.call_id@,
        record.from_uri@ == fields.from_uri@,
        record.to_uri@ == fields.to_uri@,
        record.ruri@ == fields.ruri@,
        record.method@ == fields.method@,
        record.source_ip@ == fields.source_ip@,
        record.transport@ == fields.transport@,
        0 <= i < extra@.len() && (forall|j: int|
            i < j < extra@.len() ==> (#[trigger] extra@[j]).0@ != extra@[i].0@) ==> assoc(
            pairs_text(record.extra@),
            extra@[i].0@,
        ) == Some(extra@[i].1@),
{
    let added = pairs_text(extra@);
    assert(added.len() == extra@.len());
    if 0 <= i < extra@.len() && (forall|j: int|
        i < j < extra@.len() ==> (#[trigger] extra@[j]).0@ != extra@[i].0@) {
        let start = stamp(first_session(sessions_text(sessions@), texts(fields.dialog_keys@)));
        lemma_merged_keeps(start, added, extra@[i].0@);
        assert(added[i] == (extra@[i].0@, extra@[i].1@));
        assert forall|j: int| i < j < added.len() implies (#[trigger] added[j]).0 != extra@[i].0@ by {
            assert(added[j].0 == extra@[j].0@);
        }
    }
}

proof fn lemma_session_under(sessions: Seq<RfText>, key: Seq<char>, i: int)
    requires
        0 <= i < sessions.len(),
        sessions[i].key == key,
        forall|j: int| 0 <= j < i ==> (#[trigger] sessions[j]).key != key,
    ensures
        session_under(sessions, key) == Some(sessions[i]),
    decreases sessions.len(),
{
    if i > 0 {
        assert(sessions[0].key != key);
        assert(sessions.skip(1)[i - 1] == sessions[i]);
        assert forall|j: int| 0 <= j < i - 1 implies (#[trigger] sessions.skip(1)[j]).key != key by {
            assert(sessions.skip(1)[j] == sessions[j + 1]);
        }
        lemma_session_under(sessions.skip(1), key, i - 1);
    }
}

/// A record is stamped with the charging session that is kept under the first of
/// its keys: the session's identifier as `rf_session_id` and its result, where
/// there is one, as `rf_result_code`, unless the script says otherwise.
pub proof fn record_is_stamped_with_its_session(
    fields: CdrFields,
    sessions: Vec<RfSession>,
    extra: Vec<(String, String)>,
    record: Cdr,
    i: int,
)
    requires
        call_ensures(write_cdr, (fields, &sessions, &extra), record),
        fields.dialog_keys@.len() > 0,
        0 <= i < sessions@.len(),
        sessions@[i].key@ == fields.dialog_keys@[0]@,
        forall|j: int| 0 <= j < i ==> (#[trigger] sessions@[j]).key@ != fields.dialog_keys@[0]@,
        forall|j: int| 0 <= j < extra@.len() ==> (#[trigger] extra@[j]).0@ != "rf_session_id"@,
        forall|j: int| 0 <= j < extra@.len() ==> (#[trigger] extra@[j]).0@ != "rf_result_code"@,
    ensures
        assoc(pairs_text(record.extra@), "rf_session_id"@) == Some(sessions@[i].session_id@),
        assoc(pairs_text(record.extra@), "rf_result_code"@) == match sessions@[i].result_code {
            Some(code) => Some(decimal(code as nat)),
            None => None,
        },
{
    let kept = sessions_text(sessions@);
    let keys = texts(fields.dialog_keys@);
    let added = pairs_text(extra@);
    assert(keys.len() == fields.dialog_keys@.len());
    assert(keys[0] == fields.dialog_keys@[0]@);
    assert(kept.len() == sessions@.len());
    assert(kept[i] == sessions@[i]@);
    assert forall|j: int| 0 <= j < i implies (#[trigger] kept[j]).key != keys[0] by {
        assert(kept[j] == sessions@[j]@);
    }
    lemma_session_under(kept, keys[0], i);
    let session = kept[i];
    assert(first_session(kept, keys) == Some(session));
    let start = stamp(Some(session));
    assert forall|j: int| 0 <= j < added.len() implies (#[trigger] added[j]).0 != "rf_session_id"@ by {
        assert(added[j].0 == extra@[j].0@);
    }
    assert forall|j: int| 0 <= j < added.len() implies (#[trigger] added[j]).0 != "rf_result_code"@ by {
        assert(added[j].0 == extra@[j].0@);
    }
    lemma_merged_keeps(start, added, "rf_session_id"@);
    lemma_merged_keeps(start, added, "rf_result_code"@);
    reveal_strlit("rf_session_id");
    reveal_strlit("rf_result_code");
    assert("rf_session_id"@.len() == 13);
    assert("rf_result_code"@.len() == 14);
    reveal_with_fuel(assoc, 3);
    assert(start[0] == ("rf_session_id"@, session.session_id));
    if session.result_code is Some {
        assert(start.skip(1)[0] == ("rf_result_code"@, decimal(session.result_code->0 as nat)));
    } else {
        assert(start.skip(1).len() == 0);
    }
}

/// Nothing is written while records are switched off, a record that is being
/// kept takes what is written under its key, and only what no record takes
/// becomes one of its own; a step has reached a record unless it was switched
/// off or its own record was not queued.
pub proof fn written_fields_reach_a_record(step: WriteStep, queued: bool, done: bool)
    requires
        call_ensures(reached, (&step, queued), done),
    ensures
        step is Disabled ==> !done,
        step is Merged ==> done,
        step is Standalone ==> done == queued,
{
}

/// What identifies a session to the interception targets is read from the
/// request, each identity in its own place.
pub proof fn session_query_names_the_parties(
    message: SipMessage,
    transport: String,
    source_ip: String,
    source_port: u16,
    request: PyRequest,
    li: PyLiNamespace,
    query: SessionQuery,
)
    requires
        call_ensures(PyRequest::new, (message, transport, source_ip, source_port), request),
        call_ensures(PyLiNamespace::session_query, (&li, &request), query),
    ensures
        call_id_of(message.headers@) matches Some(id) ==> query.call_id@ == id,
        opt_text(query.from_uri) == address_uri(message.headers@, "From"@, "f"@),
        opt_text(query.to_uri) == address_uri(message.headers@, "To"@, "t"@),
        message.start_line@ matches StartText::Request { method, request_uri } ==> opt_text(
            query.ruri,
        ) == Some(uri_text(request_uri)),
        query.source_ip == ip_of(source_ip@),
{
}

/// A recording that starts is audited as a start, one that stops as a stop, each
/// under the call's own Call-ID; nothing is audited while interception is off.
pub proof fn recording_is_audited_for_what_it_is(
    enabled: bool,
    li: PyLiNamespace,
    request: PyRequest,
    began: Option<AuditEntry>,
    ended: Option<AuditEntry>,
    call_id: Seq<char>,
)
    requires
        call_ensures(PyLiNamespace::new, (enabled,), li),
        call_ensures(PyLiNamespace::record, (&li, Some(&request)), Ok(began)),
        call_ensures(PyLiNamespace::stop_recording, (&li, RecordTarget::Request(&request)), Ok(ended)),
        call_id_of(request@.message.headers) == Some(call_id),
    ensures
        began is Some <==> enabled,
        ended is Some <==> enabled,
        began matches Some(entry) ==> entry.operation == AuditOperation::MediaCaptureStarted
            && entry.call_id@ == call_id && entry.detail@ == "SIPREC recording started for call "@
            + call_id,
        ended matches Some(entry) ==> entry.operation == AuditOperation::MediaCaptureStopped
            && entry.call_id@ == call_id && entry.detail@ == "SIPREC recording stopped for call "@
            + call_id,
{
}

/// A call that is recorded is marked for it and audited under its own Call-ID,
/// and nothing else of it changes; while interception is off nothing happens.
pub proof fn recorded_call_is_marked(
    enabled: bool,
    li: PyLiNamespace,
    call: &mut PyCall,
    entry: Option<AuditEntry>,
    call_id: Seq<char>,
)
    requires
        call_ensures(PyLiNamespace::new, (enabled,), li),
        call_ensures(PyLiNamespace::record_call, (&li, call), entry),
        call_id_of(old(call)@.message.headers) == Some(call_id),
    ensures
        entry is Some <==> enabled,
        entry matches Some(audit) ==> audit.operation == AuditOperation::MediaCaptureStarted
            && audit.call_id@ == call_id,
        enabled ==> final(call)@ == (CallText { li_record: true, ..old(call)@ }),
        !enabled ==> final(call)@ == old(call)@,
{
}

/// A session is a target exactly when interception is on and a warrant names it;
/// intercepting it and ceasing to go by the same.
pub proof fn target_needs_a_warrant(
    enabled: bool,
    li: PyLiNamespace,
    warrants: usize,
    target: bool,
    begun: bool,
    ceased: bool,
    on: bool,
)
    requires
        call_ensures(PyLiNamespace::new, (enabled,), li),
        call_ensures(PyLiNamespace::is_target, (&li, warrants), target),
        call_ensures(PyLiNamespace::intercept, (&li, warrants), begun),
        call_ensures(PyLiNamespace::stop_intercept, (&li, warrants), ceased),
        call_ensures(PyLiNamespace::is_enabled, (&li,), on),
    ensures
        on == enabled,
        target <==> enabled && warrants > 0,
        begun == target,
        ceased == target,
{
}

} // verus!
