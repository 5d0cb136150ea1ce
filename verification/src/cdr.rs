//! Call detail records that scripts write.
//!
//! Where a record is being kept for a call, the fields of a script are merged
//! into it; else a record of its own is made.

use crate::call::{rf_keys, CallText, PyCall};
use crate::error::{type_error, ErrorText, ScriptError};
use crate::pyvalue::{items_text, string_entries, to_string_entries, PyValue};
use crate::request::{request_rf_keys, PyRequest, RequestText};
use crate::sip::{
    address_uri, call_id_of, dialog_keys, method_or, request_uri_text, text_or_empty, MessageText,
};
use crate::text::{
    assoc, decimal, decimal_text, opt_text, pairs_text, put, put_pair, put_value_is_found,
    same_text, texts,
};
use vstd::prelude::*;
use vstd::string::*;

verus! {

/// What a record is made of.
#[derive(Debug, PartialEq)]
pub struct CdrFields {
    pub call_id: String,
    pub from_uri: String,
    pub to_uri: String,
    pub ruri: String,
    pub method: String,
    pub source_ip: String,
    pub transport: String,
    /// The keys under which a charging record may be kept.
    pub dialog_keys: Vec<String>,
    /// The keys under which a record may be being kept.
    pub session_keys: Vec<String>,
}

/// What a record is made of, as mathematical data.
pub struct FieldsText {
    pub call_id: Seq<char>,
    pub from_uri: Seq<char>,
    pub to_uri: Seq<char>,
    pub ruri: Seq<char>,
    pub method: Seq<char>,
    pub source_ip: Seq<char>,
    pub transport: Seq<char>,
    pub dialog_keys: Seq<Seq<char>>,
    pub session_keys: Seq<Seq<char>>,
}

impl View for CdrFields {
    type V = FieldsText;

    open spec fn view(&self) -> FieldsText {
        FieldsText {
            call_id: self.call_id@,
            from_uri: self.from_uri@,
            to_uri: self.to_uri@,
            ruri: self.ruri@,
            method: self.method@,
            source_ip: self.source_ip@,
            transport: self.transport@,
            dialog_keys: texts(self.dialog_keys@),
            session_keys: texts(self.session_keys@),
        }
    }
}

/// The fields of a message that came from an address over a transport.
pub open spec fn message_fields(
    message: MessageText,
    source_ip: Seq<char>,
    transport: Seq<char>,
    method: Seq<char>,
    dialog_keys: Seq<Seq<char>>,
    session_keys: Seq<Seq<char>>,
) -> FieldsText {
    FieldsText {
        call_id: text_or_empty(call_id_of(message.headers)),
        from_uri: text_or_empty(address_uri(message.headers, "From"@, "f"@)),
        to_uri: text_or_empty(address_uri(message.headers, "To"@, "t"@)),
        ruri: text_or_empty(request_uri_text(message.start)),
        method,
        source_ip,
        transport,
        dialog_keys,
        session_keys,
    }
}

/// The fields of a request.
pub open spec fn request_fields(request: RequestText, charging_key: Option<Seq<char>>) -> FieldsText {
    message_fields(
        request.message,
        request.source_ip,
        request.transport,
        method_or(request.message.start, ""@),
        request_rf_keys(request, charging_key),
        dialog_keys(request.message.headers),
    )
}

/// The fields of a call.
pub open spec fn call_fields(call: CallText, charging_key: Option<Seq<char>>) -> FieldsText {
    message_fields(
        call.message,
        call.source_ip,
        call.transport,
        method_or(call.message.start, "INVITE"@),
        rf_keys(call, charging_key),
        seq![call.id],
    )
}

impl CdrFields {
    pub fn from_request(request: &PyRequest, charging_key: Option<String>) -> (r: Self)
        ensures
            r@ == request_fields(request@, opt_text(charging_key)),
    {
        CdrFields {
            call_id: request.cdr_call_id(),
            from_uri: request.cdr_from_uri(),
            to_uri: request.cdr_to_uri(),
            ruri: request.cdr_ruri(),
            method: request.cdr_method(),
            source_ip: request.cdr_source_ip(),
            transport: request.cdr_transport(),
            dialog_keys: request.cdr_rf_dialog_key_candidates(charging_key),
            session_keys: request.cdr_session_key_candidates(),
        }
    }

    pub fn from_call(call: &PyCall, charging_key: Option<String>) -> (r: Self)
        ensures
            r@ == call_fields(call@, opt_text(charging_key)),
    {
        CdrFields {
            call_id: call.cdr_call_id(),
            from_uri: call.cdr_from_uri(),
            to_uri: call.cdr_to_uri(),
            ruri: call.cdr_ruri(),
            method: call.cdr_method(),
            source_ip: call.cdr_source_ip(),
            transport: call.cdr_transport(),
            dialog_keys: call.cdr_rf_dialog_key_candidates(charging_key),
            session_keys: call.cdr_session_key_candidates(),
        }
    }
}

/// The fields that a script adds, where it gave any.
pub open spec fn opt_extra(extra: Option<&Vec<(PyValue, PyValue)>>) -> Seq<(Seq<char>, Seq<char>)> {
    match extra {
        Some(v) => string_entries(items_text(v@)),
        None => Seq::empty(),
    }
}

/// The fields that a script adds. An entry whose key or value is no text is
/// skipped.
pub fn extra_fields(extra: Option<&Vec<(PyValue, PyValue)>>) -> (r: Vec<(String, String)>)
    ensures
        pairs_text(r@) == opt_extra(extra),
{
    match extra {
        Some(v) => to_string_entries(v),
        None => {
            let none: Vec<(String, String)> = Vec::new();
            assert(pairs_text(none@) =~= Seq::<(Seq<char>, Seq<char>)>::empty());
            none
        },
    }
}

/// A charging session that is open for a dialog.
#[derive(Debug, PartialEq)]
pub struct RfSession {
    pub key: String,
    pub session_id: String,
    pub result_code: Option<u32>,
}

/// A charging session as mathematical data.
pub struct RfText {
    pub key: Seq<char>,
    pub session_id: Seq<char>,
    pub result_code: Option<u32>,
}

impl View for RfSession {
    type V = RfText;

    open spec fn view(&self) -> RfText {
        RfText { key: self.key@, session_id: self.session_id@, result_code: self.result_code }
    }
}

/// The charging sessions of a list.
pub open spec fn sessions_text(v: Seq<RfSession>) -> Seq<RfText> {
    Seq::new(v.len(), |i: int| v[i]@)
}

/// The session that is open under a key.
pub open spec fn session_under(sessions: Seq<RfText>, key: Seq<char>) -> Option<RfText>
    decreases sessions.len(),
{
    if sessions.len() == 0 {
        None
    } else if sessions[0].key == key {
        Some(sessions[0])
    } else {
        session_under(sessions.skip(1), key)
    }
}

/// The session under the first key that has one.
pub open spec fn first_session(sessions: Seq<RfText>, keys: Seq<Seq<char>>) -> Option<RfText>
    decreases keys.len(),
{
    if keys.len() == 0 {
        None
    } else {
        match session_under(sessions, keys[0]) {
            Some(session) => Some(session),
            None => first_session(sessions, keys.skip(1)),
        }
    }
}

fn find_session<'a>(sessions: &'a Vec<RfSession>, key: &str) -> (r: Option<&'a RfSession>)
    ensures
        match r {
            Some(session) => session_under(sessions_text(sessions@), key@) == Some(session@),
            None => session_under(sessions_text(sessions@), key@) is None,
        },
{
    let ghost all = sessions_text(sessions@);
    let mut i: usize = 0;
    assert(all.skip(0) =~= all);
    while i < sessions.len()
        invariant
            i <= sessions@.len(),
            all == sessions_text(sessions@),
            session_under(all, key@) == session_under(all.skip(i as int), key@),
        decreases sessions@.len() - i,
    {
        if same_text(&sessions[i].key, key) {
            return Some(&sessions[i]);
        }
        assert(all.skip(i as int).skip(1) =~= all.skip(i + 1));
        i += 1;
    }
    None
}

fn find_first_session<'a>(sessions: &'a Vec<RfSession>, keys: &Vec<String>) -> (r: Option<
    &'a RfSession,
>)
    ensures
        match r {
            Some(session) => first_session(sessions_text(sessions@), texts(keys@)) == Some(
                session@,
            ),
            None => first_session(sessions_text(sessions@), texts(keys@)) is None,
        },
{
    let ghost all = sessions_text(sessions@);
    let ghost wanted = texts(keys@);
    let mut i: usize = 0;
    assert(wanted.skip(0) =~= wanted);
    while i < keys.len()
        invariant
            i <= keys@.len(),
            all == sessions_text(sessions@),
            wanted == texts(keys@),
            first_session(all, wanted) == first_session(all, wanted.skip(i as int)),
        decreases keys@.len() - i,
    {
        assert(wanted.skip(i as int)[0] == keys@[i as int]@);
        assert(wanted.skip(i as int).skip(1) =~= wanted.skip(i + 1));
        if let Some(session) = find_session(sessions, &keys[i]) {
            return Some(session);
        }
        i += 1;
    }
    None
}

/// A record. `extra` holds the fields beyond those of every record.
#[derive(Debug, PartialEq)]
pub struct Cdr {
    pub call_id: String,
    pub from_uri: String,
    pub to_uri: String,
    pub ruri: String,
    pub method: String,
    pub source_ip: String,
    pub transport: String,
    pub extra: Vec<(String, String)>,
}

/// A record as mathematical data.
pub struct CdrText {
    pub call_id: Seq<char>,
    pub from_uri: Seq<char>,
    pub to_uri: Seq<char>,
    pub ruri: Seq<char>,
    pub method: Seq<char>,
    pub source_ip: Seq<char>,
    pub transport: Seq<char>,
    pub extra: Seq<(Seq<char>, Seq<char>)>,
}

impl View for Cdr {
    type V = CdrText;

    open spec fn view(&self) -> CdrText {
        CdrText {
            call_id: self.call_id@,
            from_uri: self.from_uri@,
            to_uri: self.to_uri@,
            ruri: self.ruri@,
            method: self.method@,
            source_ip: self.source_ip@,
            transport: self.transport@,
            extra: pairs_text(self.extra@),
        }
    }
}

/// Fields with others put on top of them, in their order.
pub open spec fn merged(
    fields: Seq<(Seq<char>, Seq<char>)>,
    added: Seq<(Seq<char>, Seq<char>)>,
) -> Seq<(Seq<char>, Seq<char>)>
    decreases added.len(),
{
    if added.len() == 0 {
        fields
    } else {
        put(merged(fields, added.drop_last()), added.last().0, added.last().1)
    }
}

/// The fields that a charging session stamps on a record.
pub open spec fn stamp(session: Option<RfText>) -> Seq<(Seq<char>, Seq<char>)> {
    match session {
        None => Seq::empty(),
        Some(session) => {
            let id = seq![("rf_session_id"@, session.session_id)];
            match session.result_code {
                Some(code) => id.push(("rf_result_code"@, decimal(code as nat))),
                None => id,
            }
        },
    }
}

/// A record of its own: the fields, the stamp of the charging session of the
/// first key that has one, and on top of it what the script added.
pub open spec fn record_of(
    fields: FieldsText,
    sessions: Seq<RfText>,
    extra: Seq<(Seq<char>, Seq<char>)>,
) -> CdrText {
    CdrText {
        call_id: fields.call_id,
        from_uri: fields.from_uri,
        to_uri: fields.to_uri,
        ruri: fields.ruri,
        method: fields.method,
        source_ip: fields.source_ip,
        transport: fields.transport,
        extra: merged(stamp(first_session(sessions, fields.dialog_keys)), extra),
    }
}

/// Puts fields on top of others.
fn merge_into(fields: &mut Vec<(String, String)>, added: &Vec<(String, String)>)
    ensures
        pairs_text(final(fields)@) == merged(pairs_text(old(fields)@), pairs_text(added@)),
{
    let ghost base = pairs_text(fields@);
    let ghost all = pairs_text(added@);
    let mut i: usize = 0;
    assert(all.take(0) =~= Seq::<(Seq<char>, Seq<char>)>::empty());
    while i < added.len()
        invariant
            i <= added@.len(),
            all == pairs_text(added@),
            base == pairs_text(old(fields)@),
            pairs_text(fields@) == merged(base, all.take(i as int)),
        decreases added@.len() - i,
    {
        assert(all.take(i + 1).drop_last() =~= all.take(i as int));
        put_pair(fields, added[i].0.clone(), added[i].1.clone());
        i += 1;
    }
    assert(all.take(added@.len() as int) =~= all);
}

/// Makes a record of its own.
pub fn write_cdr(fields: CdrFields, sessions: &Vec<RfSession>, extra: &Vec<(String, String)>) -> (r: Cdr)
    ensures
        r@ == record_of(fields@, sessions_text(sessions@), pairs_text(extra@)),
{
    let mut stamped: Vec<(String, String)> = Vec::new();
    let session = find_first_session(sessions, &fields.dialog_keys);
    if let Some(session) = session {
        stamped.push(("rf_session_id".to_owned(), session.session_id.clone()));
        if let Some(code) = session.result_code {
            stamped.push(("rf_result_code".to_owned(), decimal_text(code as u64)));
        }
    }
    assert(pairs_text(stamped@) =~= stamp(
        first_session(sessions_text(sessions@), texts(fields.dialog_keys@)),
    ));
    merge_into(&mut stamped, extra);
    Cdr {
        call_id: fields.call_id,
        from_uri: fields.from_uri,
        to_uri: fields.to_uri,
        ruri: fields.ruri,
        method: fields.method,
        source_ip: fields.source_ip,
        transport: fields.transport,
        extra: stamped,
    }
}

/// A record that is being kept for a call until it ends.
#[derive(Debug, PartialEq)]
pub struct KeptCdr {
    pub key: String,
    pub extra: Vec<(String, String)>,
}

/// A kept record as its key and its extra fields.
pub open spec fn kept_text(v: Seq<KeptCdr>) -> Seq<(Seq<char>, Seq<(Seq<char>, Seq<char>)>)> {
    Seq::new(v.len(), |i: int| (v[i].key@, pairs_text(v[i].extra@)))
}

/// The position of the first record that is kept under one of the keys; -1
/// where there is none.
pub open spec fn kept_at(
    kept: Seq<(Seq<char>, Seq<(Seq<char>, Seq<char>)>)>,
    keys: Seq<Seq<char>>,
) -> int
    decreases kept.len(),
{
    if kept.len() == 0 {
        -1
    } else {
        let before = kept_at(kept.drop_last(), keys);
        if before >= 0 {
            before
        } else if keys.contains(kept.last().0) {
            kept.len() - 1
        } else {
            -1
        }
    }
}

/// The kept records after fields were merged into the one of a call.
pub open spec fn after_merge(
    kept: Seq<(Seq<char>, Seq<(Seq<char>, Seq<char>)>)>,
    keys: Seq<Seq<char>>,
    extra: Seq<(Seq<char>, Seq<char>)>,
) -> Seq<(Seq<char>, Seq<(Seq<char>, Seq<char>)>)> {
    let at = kept_at(kept, keys);
    if 0 <= at < kept.len() {
        kept.update(at, (kept[at].0, merged(kept[at].1, extra)))
    } else {
        kept
    }
}

fn holds_key(keys: &Vec<String>, key: &str) -> (r: bool)
    ensures
        r == texts(keys@).contains(key@),
{
    let mut i: usize = 0;
    while i < keys.len()
        invariant
            i <= keys@.len(),
            forall|k: int| 0 <= k < i ==> texts(keys@)[k] != key@,
        decreases keys@.len() - i,
    {
        if same_text(&keys[i], key) {
            assert(texts(keys@)[i as int] == key@);
            return true;
        }
        i += 1;
    }
    false
}

/// Where a script's fields went.
pub enum WriteStep {
    /// Nowhere: records are switched off.
    Disabled,
    /// Into the record that is being kept.
    Merged,
    /// Into a record of their own, which is to be queued.
    Standalone(Cdr),
}

/// The source that a script gave for a record.
pub enum CdrSource<'a> {
    Request(&'a PyRequest),
    Call(&'a PyCall),
    Other,
}

/// The fields that a source gives.
pub open spec fn source_fields(source: CdrSource, charging_key: Option<Seq<char>>) -> Result<
    FieldsText,
    ErrorText,
> {
    match source {
        CdrSource::Request(request) => Ok(request_fields(request@, charging_key)),
        CdrSource::Call(call) => Ok(call_fields(call@, charging_key)),
        CdrSource::Other => Err(type_error("cdr.write() expects a Request or Call object"@)),
    }
}

/// The `cdr` namespace of scripts, with the records that are being kept.
pub struct PyCdrNamespace {
    pub enabled: bool,
    pub kept: Vec<KeptCdr>,
}

impl PyCdrNamespace {
    /// Records switched on or off, with none being kept.
    pub fn new(enabled: bool) -> (r: Self)
        ensures
            r.enabled == enabled,
            r.kept@.len() == 0,
    {
        PyCdrNamespace { enabled, kept: Vec::new() }
    }

    /// Whether records are switched on.
    pub fn enabled(&self) -> (r: bool)
        ensures
            r == self.enabled,
    {
        self.enabled
    }

    /// Merges fields into the record that is kept under one of the keys, and
    /// says whether there is one.
    pub fn merge_extra_into_session(&mut self, keys: &Vec<String>, extra: &Vec<(String, String)>) -> (r: bool)
        ensures
            r == (kept_at(kept_text(old(self).kept@), texts(keys@)) >= 0),
            kept_text(final(self).kept@) == after_merge(
                kept_text(old(self).kept@),
                texts(keys@),
                pairs_text(extra@),
            ),
            final(self).enabled == old(self).enabled,
    {
        let ghost all = kept_text(self.kept@);
        let mut i: usize = 0;
        while i < self.kept.len()
            invariant
                i <= self.kept@.len(),
                *self == *old(self),
                all == kept_text(self.kept@),
                all.len() == self.kept@.len(),
                kept_at(all.take(i as int), texts(keys@)) == -1,
            decreases self.kept@.len() - i,
        {
            assert(all.take(i + 1).drop_last() =~= all.take(i as int));
            assert(all.take(i + 1).last() == all[i as int]);
            if holds_key(keys, &self.kept[i].key) {
                proof {
                    lemma_kept_first(all, texts(keys@), i + 1);
                }
                let record = self.kept.remove(i);
                let mut fields = record.extra;
                merge_into(&mut fields, extra);
                self.kept.insert(i, KeptCdr { key: record.key, extra: fields });
                assert(kept_text(self.kept@) =~= after_merge(
                    all,
                    texts(keys@),
                    pairs_text(extra@),
                ));
                return true;
            }
            i += 1;
        }
        assert(all.take(all.len() as int) =~= all);
        false
    }

    /// Writes the fields of a script. A source that is neither a request nor a
    /// call is an error, whether records are switched on or not.
    pub fn write(
        &mut self,
        source: CdrSource,
        charging_key: Option<String>,
        extra: Option<&Vec<(PyValue, PyValue)>>,
        sessions: &Vec<RfSession>,
    ) -> (r: Result<WriteStep, ScriptError>)
        ensures
            final(self).enabled == old(self).enabled,
            match source_fields(source, opt_text(charging_key)) {
                Err(error) => r matches Err(e) && e@ == error && kept_text(final(self).kept@)
                    == kept_text(old(self).kept@),
                Ok(fields) => match r {
                    Err(_) => false,
                    Ok(WriteStep::Disabled) => !old(self).enabled && kept_text(
                        final(self).kept@,
                    ) == kept_text(old(self).kept@),
                    Ok(WriteStep::Merged) => old(self).enabled && kept_at(
                        kept_text(old(self).kept@),
                        fields.session_keys,
                    ) >= 0 && kept_text(final(self).kept@) == after_merge(
                        kept_text(old(self).kept@),
                        fields.session_keys,
                        opt_extra(extra),
                    ),
                    Ok(WriteStep::Standalone(record)) => old(self).enabled && kept_at(
                        kept_text(old(self).kept@),
                        fields.session_keys,
                    ) < 0 && kept_text(final(self).kept@) == kept_text(old(self).kept@)
                        && record@ == record_of(
                        fields,
                        sessions_text(sessions@),
                        opt_extra(extra),
                    ),
                },
            },
    {
        let fields = match source {
            CdrSource::Request(request) => CdrFields::from_request(request, charging_key),
            CdrSource::Call(call) => CdrFields::from_call(call, charging_key),
            CdrSource::Other => {
                return Err(
                    ScriptError::type_("cdr.write() expects a Request or Call object".to_owned()),
                );
            },
        };
        if !self.enabled {
            return Ok(WriteStep::Disabled);
        }
        let extra = extra_fields(extra);
        if self.merge_extra_into_session(&fields.session_keys, &extra) {
            return Ok(WriteStep::Merged);
        }
        Ok(WriteStep::Standalone(write_cdr(fields, sessions, &extra)))
    }
}

/// Whether the fields of a script reached a record. `queued` says whether a
/// record of its own found room in the queue.
pub fn reached(step: &WriteStep, queued: bool) -> (r: bool)
    ensures
        r == match *step {
            WriteStep::Disabled => false,
            WriteStep::Merged => true,
            WriteStep::Standalone(_) => queued,
        },
{
    match step {
        WriteStep::Disabled => false,
        WriteStep::Merged => true,
        WriteStep::Standalone(_) => queued,
    }
}

proof fn lemma_kept_first(
    kept: Seq<(Seq<char>, Seq<(Seq<char>, Seq<char>)>)>,
    keys: Seq<Seq<char>>,
    n: int,
)
    requires
        0 <= n <= kept.len(),
        kept_at(kept.take(n), keys) >= 0,
    ensures
        kept_at(kept, keys) == kept_at(kept.take(n), keys),
    decreases kept.len() - n,
{
    if n == kept.len() {
        assert(kept.take(n) =~= kept);
    } else {
        assert(kept.take(n + 1).drop_last() =~= kept.take(n));
        lemma_kept_first(kept, keys, n + 1);
    }
}

/// Of fields that are merged twice under one key, the last write wins; keys
/// that were not written keep their value.
pub proof fn last_write_wins(
    fields: Seq<(Seq<char>, Seq<char>)>,
    key: Seq<char>,
    first: Seq<char>,
    second: Seq<char>,
    other: Seq<char>,
)
    requires
        other != key,
    ensures
        assoc(merged(merged(fields, seq![(key, first)]), seq![(key, second)]), key) == Some(second),
        assoc(merged(merged(fields, seq![(key, first)]), seq![(key, second)]), other) == assoc(
            fields,
            other,
        ),
{
    let one = seq![(key, first)];
    let two = seq![(key, second)];
    assert(one.drop_last() =~= Seq::<(Seq<char>, Seq<char>)>::empty());
    assert(two.drop_last() =~= Seq::<(Seq<char>, Seq<char>)>::empty());
    reveal_with_fuel(merged, 2);
    put_value_is_found(fields, key, first, other);
    put_value_is_found(put(fields, key, first), key, second, other);
}

/// What a script adds under a key that the charging session stamps takes the
/// place of the stamp.
pub proof fn manual_fields_override_the_stamp(
    fields: FieldsText,
    sessions: Seq<RfText>,
    extra: Seq<(Seq<char>, Seq<char>)>,
)
    requires
        extra.len() > 0,
    ensures
        assoc(record_of(fields, sessions, extra).extra, extra.last().0) == Some(extra.last().1),
{
    let stamped = stamp(first_session(sessions, fields.dialog_keys));
    let before = merged(stamped, extra.drop_last());
    put_value_is_found(before, extra.last().0, extra.last().1, extra.last().0);
}

/// While a record is being kept for a call, writing makes no second one.
pub proof fn kept_record_is_found(
    kept: Seq<(Seq<char>, Seq<(Seq<char>, Seq<char>)>)>,
    keys: Seq<Seq<char>>,
    at: int,
)
    requires
        0 <= at < kept.len(),
        keys.contains(kept[at].0),
    ensures
        0 <= kept_at(kept, keys) <= at,
    decreases kept.len(),
{
    if at == kept.len() - 1 {
        lemma_kept_range(kept.drop_last(), keys);
    } else {
        assert(kept.drop_last()[at] == kept[at]);
        kept_record_is_found(kept.drop_last(), keys, at);
    }
}

proof fn lemma_kept_range(kept: Seq<(Seq<char>, Seq<(Seq<char>, Seq<char>)>)>, keys: Seq<Seq<char>>)
    ensures
        -1 <= kept_at(kept, keys) < kept.len(),
    decreases kept.len(),
{
    if kept.len() > 0 {
        lemma_kept_range(kept.drop_last(), keys);
    }
}

} // verus!
