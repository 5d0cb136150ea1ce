//! Recording and interception as far as scripts see them.
//!
//! Whether a session is intercepted is not decided by scripts; they only learn
//! of it. Recording is theirs to start and to stop.

use crate::call::{CallText, PyCall};
use crate::error::{type_error, ScriptError};
use crate::net::{ip_of, IpAddr};
use crate::request::{PyRequest, RequestText};
use crate::sip::{address_uri, call_id_of, request_uri_text, text_or_empty};
use crate::text::opt_text;
use vstd::prelude::*;
use vstd::string::*;

verus! {

/// What the interception subsystem is asked about the session of a request.
pub struct SessionQuery {
    pub call_id: String,
    pub ruri: Option<String>,
    pub from_uri: Option<String>,
    pub to_uri: Option<String>,
    pub source_ip: Option<IpAddr>,
}

/// A query as mathematical data.
pub struct QueryText {
    pub call_id: Seq<char>,
    pub ruri: Option<Seq<char>>,
    pub from_uri: Option<Seq<char>>,
    pub to_uri: Option<Seq<char>>,
    pub source_ip: Option<IpAddr>,
}

impl View for SessionQuery {
    type V = QueryText;

    open spec fn view(&self) -> QueryText {
        QueryText {
            call_id: self.call_id@,
            ruri: opt_text(self.ruri),
            from_uri: opt_text(self.from_uri),
            to_uri: opt_text(self.to_uri),
            source_ip: self.source_ip,
        }
    }
}

/// What is asked about the session of a request.
pub open spec fn query_of(request: RequestText) -> QueryText {
    let h = request.message.headers;
    QueryText {
        call_id: text_or_empty(call_id_of(h)),
        ruri: request_uri_text(request.message.start),
        from_uri: address_uri(h, "From"@, "f"@),
        to_uri: address_uri(h, "To"@, "t"@),
        source_ip: ip_of(request.source_ip),
    }
}

/// What happened to the recording of a call.
#[derive(Clone, Copy, Debug, PartialEq, Eq, Structural)]
pub enum AuditOperation {
    MediaCaptureStarted,
    MediaCaptureStopped,
}

/// An entry of the audit log.
#[derive(Debug, PartialEq)]
pub struct AuditEntry {
    pub operation: AuditOperation,
    pub call_id: String,
    pub detail: String,
}

/// An audit entry as mathematical data.
pub struct AuditText {
    pub operation: AuditOperation,
    pub call_id: Seq<char>,
    pub detail: Seq<char>,
}

impl View for AuditEntry {
    type V = AuditText;

    open spec fn view(&self) -> AuditText {
        AuditText { operation: self.operation, call_id: self.call_id@, detail: self.detail@ }
    }
}

/// The audit entry of a recording that was started.
pub open spec fn started(call_id: Seq<char>) -> AuditText {
    AuditText {
        operation: AuditOperation::MediaCaptureStarted,
        call_id,
        detail: "SIPREC recording started for call "@ + call_id,
    }
}

/// The audit entry of a recording that was stopped.
pub open spec fn stopped(call_id: Seq<char>) -> AuditText {
    AuditText {
        operation: AuditOperation::MediaCaptureStopped,
        call_id,
        detail: "SIPREC recording stopped for call "@ + call_id,
    }
}

/// What a script wants recorded, read-only.
pub enum RecordTarget<'a> {
    Request(&'a PyRequest),
    Call(&'a PyCall),
    Other,
}

/// The `li` namespace of scripts.
pub struct PyLiNamespace {
    enabled: bool,
}

impl View for PyLiNamespace {
    type V = bool;

    closed spec fn view(&self) -> bool {
        self.enabled
    }
}

fn start_entry(call_id: String) -> (r: AuditEntry)
    ensures
        r@ == started(call_id@),
{
    let detail = "SIPREC recording started for call ".to_owned().concat(&call_id);
    AuditEntry { operation: AuditOperation::MediaCaptureStarted, call_id, detail }
}

impl PyLiNamespace {
    /// The namespace, with the subsystem switched on or off.
    pub fn new(enabled: bool) -> (r: Self)
        ensures
            r@ == enabled,
    {
        PyLiNamespace { enabled }
    }

    /// Whether the subsystem is switched on.
    pub fn is_enabled(&self) -> (r: bool)
        ensures
            r == self@,
    {
        self.enabled
    }

    /// What is asked about the session of a request. It is asked of the
    /// session, and so finds what was decided when the session opened.
    pub fn session_query(&self, request: &PyRequest) -> (r: SessionQuery)
        ensures
            r@ == query_of(request@),
    {
        SessionQuery {
            call_id: request.li_call_id(),
            ruri: request.li_ruri(),
            from_uri: request.li_from_uri(),
            to_uri: request.li_to_uri(),
            source_ip: request.li_source_ip(),
        }
    }

    /// Whether a session is intercepted. `warrants` is how many warrants the
    /// subsystem found for it; none count while it is switched off.
    pub fn is_target(&self, warrants: usize) -> (r: bool)
        ensures
            r == (self@ && warrants > 0),
    {
        self.enabled && warrants > 0
    }

    /// Says whether a session is intercepted; it intercepts nothing itself.
    pub fn intercept(&self, warrants: usize) -> (r: bool)
        ensures
            r == (self@ && warrants > 0),
    {
        self.is_target(warrants)
    }

    /// Says whether a session is intercepted; it stops nothing itself.
    pub fn stop_intercept(&self, warrants: usize) -> (r: bool)
        ensures
            r == (self@ && warrants > 0),
    {
        self.is_target(warrants)
    }

    /// Starts recording a call: marks it, and gives the audit entry that is
    /// due. While the subsystem is switched off nothing happens.
    pub fn record_call(&self, call: &mut PyCall) -> (r: Option<AuditEntry>)
        ensures
            match r {
                Some(entry) => self@ && entry@ == started(
                    text_or_empty(call_id_of(old(call)@.message.headers)),
                ) && final(call)@ == (CallText { li_record: true, ..old(call)@ }),
                None => !self@ && final(call)@ == old(call)@,
            },
    {
        if !self.enabled {
            return None;
        }
        let call_id = call.li_call_id();
        call.set_li_record();
        Some(start_entry(call_id))
    }

    /// Starts recording what is not a call: a request, or an error for
    /// anything else. While the subsystem is switched off nothing happens.
    pub fn record(&self, target: Option<&PyRequest>) -> (r: Result<Option<AuditEntry>, ScriptError>)
        ensures
            match r {
                Ok(Some(entry)) => self@ && (target matches Some(request) && entry@ == started(
                    text_or_empty(call_id_of(request@.message.headers)),
                )),
                Ok(None) => !self@,
                Err(e) => self@ && target is None && e@ == type_error(
                    "record() expects a Request or Call object"@,
                ),
            },
    {
        if !self.enabled {
            return Ok(None);
        }
        match target {
            Some(request) => Ok(Some(start_entry(request.li_call_id()))),
            None => Err(
                ScriptError::type_("record() expects a Request or Call object".to_owned()),
            ),
        }
    }

    /// Stops recording, and gives the audit entry that is due. While the
    /// subsystem is switched off nothing happens.
    pub fn stop_recording(&self, target: RecordTarget) -> (r: Result<Option<AuditEntry>, ScriptError>)
        ensures
            match r {
                Ok(Some(entry)) => self@ && match target {
                    RecordTarget::Request(request) => entry@ == stopped(
                        text_or_empty(call_id_of(request@.message.headers)),
                    ),
                    RecordTarget::Call(call) => entry@ == stopped(
                        text_or_empty(call_id_of(call@.message.headers)),
                    ),
                    RecordTarget::Other => false,
                },
                Ok(None) => !self@,
                Err(e) => self@ && target is Other && e@ == type_error(
                    "stop_recording() expects a Request or Call object"@,
                ),
            },
    {
        if !self.enabled {
            return Ok(None);
        }
        let call_id = match target {
            RecordTarget::Call(call) => call.li_call_id(),
            RecordTarget::Request(request) => request.li_call_id(),
            RecordTarget::Other => {
                return Err(
                    ScriptError::type_(
                        "stop_recording() expects a Request or Call object".to_owned(),
                    ),
                );
            },
        };
        let detail = "SIPREC recording stopped for call ".to_owned().concat(&call_id);
        Ok(
            Some(
                AuditEntry { operation: AuditOperation::MediaCaptureStopped, call_id, detail },
            ),
        )
    }
}

} // verus!
