//! The request object that a script handles.

use crate::net::{ip_of, IpAddr};
use crate::sip::{
    address_uri, call_id_of, dialog_keys, method_or, or_empty, request_uri_text, text_or_empty,
    MessageText, SipMessage,
};
use crate::text::{opt_text, texts};
use vstd::prelude::*;
use vstd::string::*;

verus! {

/// What the script decided to do with a request.
#[derive(Debug, PartialEq)]
pub enum RequestAction {
    NoAction,
    Reply { code: u16, reason: String, reliable: bool },
}

/// A decision as its text parts.
pub enum RequestActionText {
    NoAction,
    Reply { code: u16, reason: Seq<char>, reliable: bool },
}

impl View for RequestAction {
    type V = RequestActionText;

    open spec fn view(&self) -> RequestActionText {
        match *self {
            RequestAction::NoAction => RequestActionText::NoAction,
            RequestAction::Reply { code, reason, reliable } => RequestActionText::Reply {
                code,
                reason: reason@,
                reliable,
            },
        }
    }
}

/// A SIP request with where it came from and what was decided about it.
pub struct PyRequest {
    message: SipMessage,
    transport: String,
    source_ip: String,
    source_port: u16,
    action: RequestAction,
    auth_user: Option<String>,
}

/// What a request object holds.
pub struct RequestText {
    pub message: MessageText,
    pub transport: Seq<char>,
    pub source_ip: Seq<char>,
    pub source_port: u16,
    pub action: RequestActionText,
    pub auth_user: Option<Seq<char>>,
}

impl View for PyRequest {
    type V = RequestText;

    closed spec fn view(&self) -> RequestText {
        RequestText {
            message: self.message@,
            transport: self.transport@,
            source_ip: self.source_ip@,
            source_port: self.source_port,
            action: self.action@,
            auth_user: opt_text(self.auth_user),
        }
    }
}

/// A plain reply with the given status.
pub open spec fn reply(code: u16, reason: Seq<char>) -> RequestActionText {
    RequestActionText::Reply { code, reason, reliable: false }
}

impl PyRequest {
    pub fn new(message: SipMessage, transport: String, source_ip: String, source_port: u16) -> (r: Self)
        ensures
            r@ == (RequestText {
                message: message@,
                transport: transport@,
                source_ip: source_ip@,
                source_port,
                action: RequestActionText::NoAction,
                auth_user: None,
            }),
    {
        PyRequest {
            message,
            transport,
            source_ip,
            source_port,
            action: RequestAction::NoAction,
            auth_user: None,
        }
    }

    pub fn message(&self) -> (r: &SipMessage)
        ensures
            r@ == self@.message,
    {
        &self.message
    }

    /// Replaces the message.
    pub fn set_message(&mut self, message: SipMessage)
        ensures
            final(self)@ == (RequestText { message: message@, ..old(self)@ }),
    {
        self.message = message;
    }

    pub fn action(&self) -> (r: &RequestAction)
        ensures
            r@ == self@.action,
    {
        &self.action
    }

    /// Decides to reply with a status.
    pub fn set_reply(&mut self, code: u16, reason: String)
        ensures
            final(self)@ == (RequestText { action: reply(code, reason@), ..old(self)@ }),
    {
        self.action = RequestAction::Reply { code, reason, reliable: false };
    }

    pub fn set_auth_user(&mut self, username: String)
        ensures
            final(self)@ == (RequestText { auth_user: Some(username@), ..old(self)@ }),
    {
        self.auth_user = Some(username);
    }

    pub fn get_auth_user(&self) -> (r: Option<&str>)
        ensures
            match r {
                Some(user) => self@.auth_user == Some(user@),
                None => self@.auth_user is None,
            },
    {
        match &self.auth_user {
            Some(user) => Some(user.as_str()),
            None => None,
        }
    }

    pub fn source_ip_str(&self) -> (r: &str)
        ensures
            r@ == self@.source_ip,
    {
        self.source_ip.as_str()
    }

    /// Removes every header of that name.
    pub fn remove_header(&mut self, name: &str)
        ensures
            final(self)@ == (RequestText {
                message: (MessageText {
                    headers: crate::sip::without_header(old(self)@.message.headers, name@),
                    ..old(self)@.message
                }),
                ..old(self)@
            }),
    {
        self.message.headers.remove(name);
    }

    /// Appends a header.
    pub fn add_header(&mut self, header: crate::sip::Header)
        ensures
            final(self)@ == (RequestText {
                message: (MessageText {
                    headers: old(self)@.message.headers.push(header@),
                    ..old(self)@.message
                }),
                ..old(self)@
            }),
    {
        self.message.headers.append(header);
    }

    /// Replaces every header of that name by one.
    pub fn set_header(&mut self, header: crate::sip::Header)
        ensures
            final(self)@ == (RequestText {
                message: (MessageText {
                    headers: crate::sip::with_header(old(self)@.message.headers, header@),
                    ..old(self)@.message
                }),
                ..old(self)@
            }),
    {
        self.message.headers.set(header);
    }

    pub fn cdr_method(&self) -> (r: String)
        ensures
            r@ == method_or(self@.message.start, ""@),
    {
        self.message.method_or("")
    }

    pub fn cdr_call_id(&self) -> (r: String)
        ensures
            r@ == text_or_empty(call_id_of(self@.message.headers)),
    {
        or_empty(self.message.call_id())
    }

    pub fn cdr_from_uri(&self) -> (r: String)
        ensures
            r@ == text_or_empty(address_uri(self@.message.headers, "From"@, "f"@)),
    {
        or_empty(self.message.address_uri("From", "f"))
    }

    pub fn cdr_to_uri(&self) -> (r: String)
        ensures
            r@ == text_or_empty(address_uri(self@.message.headers, "To"@, "t"@)),
    {
        or_empty(self.message.address_uri("To", "t"))
    }

    pub fn cdr_ruri(&self) -> (r: String)
        ensures
            r@ == text_or_empty(request_uri_text(self@.message.start)),
    {
        or_empty(self.message.request_uri_text())
    }

    pub fn cdr_source_ip(&self) -> (r: String)
        ensures
            r@ == self@.source_ip,
    {
        self.source_ip.clone()
    }

    pub fn cdr_transport(&self) -> (r: String)
        ensures
            r@ == self@.transport,
    {
        self.transport.clone()
    }

    /// The keys under which the record of this request may be kept: those of
    /// its dialog.
    pub fn cdr_session_key_candidates(&self) -> (r: Vec<String>)
        ensures
            texts(r@) == dialog_keys(self@.message.headers),
    {
        self.message.dialog_keys()
    }

    /// The keys under which a charging record of this request may be kept.
    /// `charging_key` is the key of the record that the message's charging
    /// vector names.
    pub fn cdr_rf_dialog_key_candidates(&self, charging_key: Option<String>) -> (r: Vec<String>)
        ensures
            texts(r@) == request_rf_keys(self@, opt_text(charging_key)),
    {
        let mut keys: Vec<String> = Vec::new();
        if let Some(key) = charging_key {
            keys.push(key);
        }
        let ghost head = texts(keys@);
        let mut rest = self.message.dialog_keys();
        let ghost tail = texts(rest@);
        keys.append(&mut rest);
        assert(texts(keys@) =~= head + tail);
        assert(texts(keys@) =~= request_rf_keys(self@, opt_text(charging_key)));
        keys
    }

    pub fn li_call_id(&self) -> (r: String)
        ensures
            r@ == text_or_empty(call_id_of(self@.message.headers)),
    {
        or_empty(self.message.call_id())
    }

    pub fn li_ruri(&self) -> (r: Option<String>)
        ensures
            opt_text(r) == request_uri_text(self@.message.start),
    {
        self.message.request_uri_text()
    }

    pub fn li_from_uri(&self) -> (r: Option<String>)
        ensures
            opt_text(r) == address_uri(self@.message.headers, "From"@, "f"@),
    {
        self.message.address_uri("From", "f")
    }

    pub fn li_to_uri(&self) -> (r: Option<String>)
        ensures
            opt_text(r) == address_uri(self@.message.headers, "To"@, "t"@),
    {
        self.message.address_uri("To", "t")
    }

    pub fn li_source_ip(&self) -> (r: Option<IpAddr>)
        ensures
            r == ip_of(self@.source_ip),
    {
        IpAddr::parse(&self.source_ip)
    }
}

/// The keys under which a charging record of a request may be kept: that of its
/// charging vector first, then those of its dialog.
pub open spec fn request_rf_keys(request: RequestText, charging_key: Option<Seq<char>>) -> Seq<
    Seq<char>,
> {
    let charging = match charging_key {
        Some(key) => seq![key],
        None => Seq::empty(),
    };
    charging + dialog_keys(request.message.headers)
}

} // verus!
