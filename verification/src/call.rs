//! Calls that a script handles as a back-to-back user agent.
//!
//! A call holds the INVITE of its caller and what the script decided. Sending
//! is not done here: a method that sends says what is to be sent.

pub mod action;
pub mod identity;
pub mod routing;

use crate::call::action::{
    copy_flow, default_media, opt_flow, opt_replaces, replaces_dict, ActionText, CallAction,
    FlowText, HeaderPolicyInput, MediaText, PolicyInputText, PyFlow, PyMediaHandle, Replaces,
    ReplacesText, RouteAttempt, SessionTimerOverride, TimerText, attempt_dict,
};
use crate::error::{value_error, ScriptError};
use crate::gateway::{member, PyGateway};
use crate::lcr::{LcrRequest, LcrRequestText, LcrSource, PyRoute, Route, RouteText};
use crate::net::{in_network, ip_of, network_of, IpAddr, IpNetwork};
use crate::pyvalue::PyValue;
use crate::sip::{
    address_tag, address_uri, call_id_of, copy_opt, dialog_key, dialog_keys, header_of, header_or,
    header_value, make_dialog_key, method_or, or_empty, request_uri_text, text_or_empty,
    HeaderText, MessageText, SipMessage, SipUri, StartLine, StartText, UriText,
};
use crate::text::{opt_slice, opt_str, opt_text, pairs_text, texts};
use vstd::prelude::*;
use vstd::string::*;

verus! {

/// A call as a script sees it.
pub struct PyCall {
    id: String,
    message: SipMessage,
    source_ip: String,
    flow: Option<PyFlow>,
    transport_name: String,
    state: String,
    action: CallAction,
    media_handle: PyMediaHandle,
    session_timer_override: Option<SessionTimerOverride>,
    refer_to_uri: Option<String>,
    refer_replaces_info: Option<Replaces>,
    refer_from_a_leg: Option<bool>,
    outbound_credentials: Option<(String, String)>,
    li_record_flag: bool,
    preserve_call_id_flag: bool,
    from_host_override: Option<String>,
    to_host_override: Option<String>,
    contact_user_override: Option<String>,
    contact_override: Option<String>,
    header_policy_input: Option<HeaderPolicyInput>,
    auth_passthrough_flag: bool,
    active_route: Option<Route>,
    route_attempts: Vec<RouteAttempt>,
    auth_user: Option<String>,
}

/// A call as mathematical data.
pub struct CallText {
    pub id: Seq<char>,
    pub message: MessageText,
    pub source_ip: Seq<char>,
    pub flow: Option<FlowText>,
    pub transport: Seq<char>,
    pub state: Seq<char>,
    pub action: ActionText,
    pub media: MediaText,
    pub session_timer: Option<TimerText>,
    pub refer_to: Option<Seq<char>>,
    pub refer_replaces: Option<ReplacesText>,
    pub refer_from_a_leg: Option<bool>,
    pub credentials: Option<(Seq<char>, Seq<char>)>,
    pub li_record: bool,
    pub preserve_call_id: bool,
    pub from_host: Option<Seq<char>>,
    pub to_host: Option<Seq<char>>,
    pub contact_user: Option<Seq<char>>,
    pub contact: Option<Seq<char>>,
    pub header_policy: Option<PolicyInputText>,
    pub auth_passthrough: bool,
    pub active_route: Option<RouteText>,
    pub route_attempts: Seq<RouteAttempt>,
    pub auth_user: Option<Seq<char>>,
}

impl View for PyCall {
    type V = CallText;

    closed spec fn view(&self) -> CallText {
        CallText {
            id: self.id@,
            message: self.message@,
            source_ip: self.source_ip@,
            flow: opt_flow(self.flow),
            transport: self.transport_name@,
            state: self.state@,
            action: self.action@,
            media: self.media_handle@,
            session_timer: match self.session_timer_override {
                Some(timer) => Some(timer@),
                None => None,
            },
            refer_to: opt_text(self.refer_to_uri),
            refer_replaces: opt_replaces(self.refer_replaces_info),
            refer_from_a_leg: self.refer_from_a_leg,
            credentials: match self.outbound_credentials {
                Some((user, password)) => Some((user@, password@)),
                None => None,
            },
            li_record: self.li_record_flag,
            preserve_call_id: self.preserve_call_id_flag,
            from_host: opt_text(self.from_host_override),
            to_host: opt_text(self.to_host_override),
            contact_user: opt_text(self.contact_user_override),
            contact: opt_text(self.contact_override),
            header_policy: match self.header_policy_input {
                Some(input) => Some(input@),
                None => None,
            },
            auth_passthrough: self.auth_passthrough_flag,
            active_route: match self.active_route {
                Some(route) => Some(route@),
                None => None,
            },
            route_attempts: self.route_attempts@,
            auth_user: opt_text(self.auth_user),
        }
    }
}

/// A call that has just come in.
pub open spec fn new_call(id: Seq<char>, message: MessageText, source_ip: Seq<char>, transport: Seq<char>) -> CallText {
    CallText {
        id,
        message,
        source_ip,
        flow: None,
        transport,
        state: "calling"@,
        action: ActionText::NoAction,
        media: default_media(),
        session_timer: None,
        refer_to: None,
        refer_replaces: None,
        refer_from_a_leg: None,
        credentials: None,
        li_record: false,
        preserve_call_id: false,
        from_host: None,
        to_host: None,
        contact_user: None,
        contact: None,
        header_policy: None,
        auth_passthrough: false,
        active_route: None,
        route_attempts: Seq::empty(),
        auth_user: None,
    }
}

/// What a routing service is asked about a call. The dialed number is the user
/// part of the request URI, else that of the To header.
pub open spec fn lcr_request_of(
    call: CallText,
    version: Seq<char>,
    trunk_group: Option<Seq<char>>,
    attributes: Seq<(Seq<char>, Seq<char>)>,
) -> LcrRequestText {
    let h = call.message.headers;
    let ruri_user = match call.message.start {
        StartText::Request { request_uri, .. } => request_uri.user,
        StartText::Response { .. } => None,
    };
    let to_user = match header_of(h, "To"@) {
        Some(header) => match header.address {
            Some(address) => address.uri.user,
            None => None,
        },
        None => None,
    };
    LcrRequestText {
        version,
        call_id: text_or_empty(header_value(h, "Call-ID"@)),
        from: text_or_empty(address_uri(h, "From"@, "From"@)),
        to: text_or_empty(address_uri(h, "To"@, "To"@)),
        dialed_number: match ruri_user {
            Some(user) => user,
            None => text_or_empty(to_user),
        },
        ip: call.source_ip,
        trunk_group,
        transport: call.transport,
        attributes,
    }
}

/// Whether an address is in one of the networks that a list names. Entries that
/// are no network are skipped.
pub open spec fn in_any(cidrs: Seq<Seq<char>>, ip: IpAddr) -> bool {
    exists|i: int| 0 <= i < cidrs.len() && names_network_of(#[trigger] cidrs[i], ip)
}

pub open spec fn names_network_of(cidr: Seq<char>, ip: IpAddr) -> bool {
    network_of(cidr) matches Some(net) && in_network(net, ip)
}

/// The keys under which a charging record of a call may be kept: its own first,
/// then that of its charging vector, then those of its dialog.
pub open spec fn rf_keys(call: CallText, charging_key: Option<Seq<char>>) -> Seq<Seq<char>> {
    let own = seq!["b2bua:"@ + call.id];
    let charging = match charging_key {
        Some(key) => seq![key],
        None => Seq::empty(),
    };
    own + charging + dialog_keys(call.message.headers)
}

/// A charging parameter of a dialog.
pub struct ChargingParam {
    pub dialog_key: String,
    pub name: String,
    pub value: String,
}

impl PyCall {
    pub fn new(id: String, message: SipMessage, source_ip: String, transport_name: String) -> (r: Self)
        ensures
            r@ == new_call(id@, message@, source_ip@, transport_name@),
    {
        PyCall {
            id,
            message,
            source_ip,
            flow: None,
            transport_name,
            state: "calling".to_owned(),
            action: CallAction::NoAction,
            media_handle: PyMediaHandle::default(),
            session_timer_override: None,
            refer_to_uri: None,
            refer_replaces_info: None,
            refer_from_a_leg: None,
            outbound_credentials: None,
            li_record_flag: false,
            preserve_call_id_flag: false,
            from_host_override: None,
            to_host_override: None,
            contact_user_override: None,
            contact_override: None,
            header_policy_input: None,
            auth_passthrough_flag: false,
            active_route: None,
            route_attempts: Vec::new(),
            auth_user: None,
        }
    }

    /// The identifier of the call.
    pub fn id(&self) -> (r: &str)
        ensures
            r@ == self@.id,
    {
        self.id.as_str()
    }

    pub fn state(&self) -> (r: &str)
        ensures
            r@ == self@.state,
    {
        self.state.as_str()
    }

    pub fn source_ip(&self) -> (r: &str)
        ensures
            r@ == self@.source_ip,
    {
        self.source_ip.as_str()
    }

    pub fn source_ip_str(&self) -> (r: &str)
        ensures
            r@ == self@.source_ip,
    {
        self.source_ip.as_str()
    }

    pub fn transport_str(&self) -> (r: &str)
        ensures
            r@ == self@.transport,
    {
        self.transport_name.as_str()
    }

    /// The call with the flow that its INVITE arrived on.
    pub fn with_flow(self, flow: Option<PyFlow>) -> (r: Self)
        ensures
            r@ == (CallText { flow: opt_flow(flow), ..self@ }),
    {
        PyCall { flow, ..self }
    }

    /// The flow that the INVITE arrived on.
    pub fn flow(&self) -> (r: Option<PyFlow>)
        ensures
            opt_flow(r) == self@.flow,
    {
        copy_flow(&self.flow)
    }

    /// Records the user that the caller proved to be.
    pub fn set_auth_user(&mut self, username: String)
        ensures
            final(self)@ == (CallText { auth_user: Some(username@), ..old(self)@ }),
    {
        self.auth_user = Some(username);
    }

    pub fn get_auth_user(&self) -> (r: Option<&str>)
        ensures
            opt_str(r) == self@.auth_user,
    {
        opt_slice(&self.auth_user)
    }

    pub fn auth_user(&self) -> (r: Option<&str>)
        ensures
            opt_str(r) == self@.auth_user,
    {
        opt_slice(&self.auth_user)
    }

    /// Overwrites or clears the user.
    pub fn py_set_auth_user(&mut self, username: Option<String>)
        ensures
            final(self)@ == (CallText { auth_user: opt_text(username), ..old(self)@ }),
    {
        self.auth_user = username;
    }

    /// Records the carrier that won.
    pub fn set_active_route(&mut self, route: Route)
        ensures
            final(self)@ == (CallText { active_route: Some(route@), ..old(self)@ }),
    {
        self.active_route = Some(route);
    }

    /// Records the carriers that failed.
    pub fn set_route_attempts(&mut self, attempts: Vec<RouteAttempt>)
        ensures
            final(self)@ == (CallText { route_attempts: attempts@, ..old(self)@ }),
    {
        self.route_attempts = attempts;
    }

    /// The carrier that won.
    pub fn active_route(&self) -> (r: Option<PyRoute>)
        ensures
            match r {
                Some(route) => self@.active_route == Some(route@),
                None => self@.active_route is None,
            },
    {
        match &self.active_route {
            Some(route) => Some(PyRoute::from_route(route.copy())),
            None => None,
        }
    }

    /// The carriers that failed, oldest first, each as a dict.
    pub fn route_attempts(&self) -> (r: Vec<PyValue>)
        ensures
            r@.len() == self@.route_attempts.len(),
            forall|i: int|
                0 <= i < r@.len() ==> (#[trigger] r@[i])@ == attempt_dict(self@.route_attempts[i]),
    {
        let mut out: Vec<PyValue> = Vec::new();
        let mut i: usize = 0;
        while i < self.route_attempts.len()
            invariant
                i <= self.route_attempts@.len(),
                self@.route_attempts == self.route_attempts@,
                out@.len() == i,
                forall|k: int|
                    0 <= k < i ==> (#[trigger] out@[k])@ == attempt_dict(self@.route_attempts[k]),
            decreases self.route_attempts@.len() - i,
        {
            out.push(self.route_attempts[i].to_dict());
            i += 1;
        }
        out
    }

    /// What a routing service is asked about this call.
    pub fn lcr_request(
        &self,
        version: &str,
        trunk_group: Option<String>,
        attributes: Vec<(String, String)>,
    ) -> (r: LcrRequest)
        ensures
            r@ == lcr_request_of(self@, version@, opt_text(trunk_group), pairs_text(attributes@)),
    {
        let call_id = or_empty(self.message.headers.get("Call-ID"));
        let from = or_empty(self.message.address_uri("From", "From"));
        let to = or_empty(self.message.address_uri("To", "To"));
        let ruri_user = match &self.message.start_line {
            StartLine::Request { request_uri, .. } => copy_opt(&request_uri.user),
            StartLine::Response { .. } => None,
        };
        let dialed_number = match ruri_user {
            Some(user) => user,
            None => match self.message.headers.find_or("To", "To") {
                Some(header) => match header.address {
                    Some(address) => or_empty(address.uri.user),
                    None => "".to_owned(),
                },
                None => "".to_owned(),
            },
        };
        LcrRequest {
            version: version.to_owned(),
            call_id,
            from,
            to,
            dialed_number,
            source: LcrSource {
                ip: self.source_ip.clone(),
                trunk_group,
                transport: self.transport_name.clone(),
            },
            attributes,
        }
    }

    pub fn header_policy_input(&self) -> (r: Option<&HeaderPolicyInput>)
        ensures
            match r {
                Some(input) => self@.header_policy == Some(input@),
                None => self@.header_policy is None,
            },
    {
        self.header_policy_input.as_ref()
    }

    /// Whether challenges of the callee are relayed to the caller.
    pub fn auth_passthrough(&self) -> (r: bool)
        ensures
            r == self@.auth_passthrough,
    {
        self.auth_passthrough_flag
    }

    /// What the script decided.
    pub fn action(&self) -> (r: &CallAction)
        ensures
            r@ == self@.action,
    {
        &self.action
    }

    /// Decides to reject the call.
    pub fn set_reject(&mut self, code: u16, reason: &str)
        ensures
            final(self)@ == (CallText { action: (ActionText::Reject { code, reason: reason@ }), ..old(self)@ }),
    {
        self.action = CallAction::Reject { code, reason: reason.to_owned() };
    }

    /// Decides to reject the call.
    pub fn reject(&mut self, code: u16, reason: &str)
        ensures
            final(self)@ == (CallText { action: (ActionText::Reject { code, reason: reason@ }), ..old(self)@ }),
    {
        self.action = CallAction::Reject { code, reason: reason.to_owned() };
    }

    /// Decides to end the call on both legs.
    pub fn terminate(&mut self)
        ensures
            final(self)@ == (CallText { action: ActionText::Terminate, ..old(self)@ }),
    {
        self.action = CallAction::Terminate;
    }

    /// Decides to reject a transfer.
    pub fn reject_refer(&mut self, code: u16, reason: &str)
        ensures
            final(self)@ == (CallText {
                action: (ActionText::RejectRefer { code, reason: reason@ }),
                ..old(self)@
            }),
    {
        self.action = CallAction::RejectRefer { code, reason: reason.to_owned() };
    }

    pub fn media_handle(&self) -> (r: &PyMediaHandle)
        ensures
            r@ == self@.media,
    {
        &self.media_handle
    }

    /// The media anchor of the call itself: what is done to it is done to the
    /// call.
    pub fn media(&mut self) -> (r: &mut PyMediaHandle)
        ensures
            r@ == old(self)@.media,
            final(self)@ == (CallText { media: final(r)@, ..old(self)@ }),
    {
        &mut self.media_handle
    }

    pub fn set_media(&mut self, handle: &PyMediaHandle)
        ensures
            final(self)@ == (CallText { media: handle@, ..old(self)@ }),
    {
        self.media_handle = handle.copy();
    }

    /// The INVITE of the caller.
    pub fn message(&self) -> (r: &SipMessage)
        ensures
            r@ == self@.message,
    {
        &self.message
    }

    pub fn set_state(&mut self, state: &str)
        ensures
            final(self)@ == (CallText { state: state@, ..old(self)@ }),
    {
        self.state = state.to_owned();
    }

    pub fn session_timer_override(&self) -> (r: Option<&SessionTimerOverride>)
        ensures
            match r {
                Some(timer) => self@.session_timer == Some(timer@),
                None => self@.session_timer is None,
            },
    {
        self.session_timer_override.as_ref()
    }

    /// Sets the session timer of this call.
    pub fn session_timer(&mut self, expires: u32, min_se: u32, refresher: &str)
        ensures
            final(self)@ == (CallText {
                session_timer: Some(
                    TimerText { session_expires: expires, min_se, refresher: refresher@ },
                ),
                ..old(self)@
            }),
    {
        self.session_timer_override = Some(
            SessionTimerOverride {
                session_expires: expires,
                min_se,
                refresher: refresher.to_owned(),
            },
        );
    }

    /// The user and password that a challenge of the callee is answered with.
    pub fn outbound_credentials(&self) -> (r: Option<(&str, &str)>)
        ensures
            match r {
                Some((user, password)) => self@.credentials == Some((user@, password@)),
                None => self@.credentials is None,
            },
    {
        match &self.outbound_credentials {
            Some((user, password)) => Some((user.as_str(), password.as_str())),
            None => None,
        }
    }

    pub fn set_credentials(&mut self, username: &str, password: &str)
        ensures
            final(self)@ == (CallText { credentials: Some((username@, password@)), ..old(self)@ }),
    {
        self.outbound_credentials = Some((username.to_owned(), password.to_owned()));
    }

    /// Whether the call is to be recorded.
    pub fn li_record(&self) -> (r: bool)
        ensures
            r == self@.li_record,
    {
        self.li_record_flag
    }

    pub fn set_li_record(&mut self)
        ensures
            final(self)@ == (CallText { li_record: true, ..old(self)@ }),
    {
        self.li_record_flag = true;
    }

    pub fn li_method(&self) -> (r: String)
        ensures
            r@ == "INVITE"@,
    {
        "INVITE".to_owned()
    }

    pub fn li_call_id(&self) -> (r: String)
        ensures
            r@ == text_or_empty(call_id_of(self@.message.headers)),
    {
        or_empty(self.message.call_id())
    }

    pub fn li_from_uri(&self) -> (r: Option<String>)
        ensures
            opt_text(r) == address_uri(self@.message.headers, "From"@, "f"@),
    {
        self.message.address_uri("From", "f")
    }

    pub fn li_to_uri(&self) -> (r: Option<String>)
        ensures
            opt_text(r) == address_uri(self@.message.headers, "To"@, "t"@),
    {
        self.message.address_uri("To", "t")
    }

    pub fn li_ruri(&self) -> (r: Option<String>)
        ensures
            opt_text(r) == request_uri_text(self@.message.start),
    {
        self.message.request_uri_text()
    }

    pub fn li_source_ip(&self) -> (r: Option<IpAddr>)
        ensures
            r == ip_of(self@.source_ip),
    {
        IpAddr::parse(&self.source_ip)
    }

    /// Whether the caller's address is one of those of a gateway group: never
    /// without groups, for an unknown group or for an address that does not
    /// parse.
    pub fn from_gateway_impl(&self, group_name: &str, manager: Option<&PyGateway>) -> (r: bool)
        ensures
            r == (manager matches Some(gateway) && ip_of(self@.source_ip) matches Some(ip) && member(
                gateway@,
                group_name@,
                ip,
            )),
    {
        match IpAddr::parse(&self.source_ip) {
            Some(ip) => match manager {
                Some(gateway) => gateway.source_in_group(group_name, ip),
                None => false,
            },
            None => false,
        }
    }

    /// Whether the caller's address is in one of the given networks. Entries
    /// that are no network are skipped.
    pub fn source_ip_in(&self, cidr_list: Vec<String>) -> (r: Result<bool, ScriptError>)
        ensures
            match r {
                Ok(found) => ip_of(self@.source_ip) matches Some(ip) && found == in_any(
                    texts(cidr_list@),
                    ip,
                ),
                Err(e) => ip_of(self@.source_ip) is None && e@ == value_error(
                    "bad source IP: invalid IP address syntax"@,
                ),
            },
    {
        let ip = match IpAddr::parse(&self.source_ip) {
            Some(ip) => ip,
            None => {
                return Err(
                    ScriptError::value("bad source IP: invalid IP address syntax".to_owned()),
                );
            },
        };
        let ghost all = texts(cidr_list@);
        let mut i: usize = 0;
        while i < cidr_list.len()
            invariant
                i <= cidr_list@.len(),
                all == texts(cidr_list@),
                ip_of(self@.source_ip) == Some(ip),
                forall|k: int| 0 <= k < i ==> !names_network_of(#[trigger] all[k], ip),
            decreases cidr_list@.len() - i,
        {
            assert(all[i as int] == cidr_list@[i as int]@);
            if let Some(network) = IpNetwork::parse(&cidr_list[i]) {
                if network.contains(&ip) {
                    assert(names_network_of(all[i as int], ip));
                    return Ok(true);
                }
            }
            i += 1;
        }
        Ok(false)
    }

    pub fn cdr_method(&self) -> (r: String)
        ensures
            r@ == method_or(self@.message.start, "INVITE"@),
    {
        self.message.method_or("INVITE")
    }

    pub fn cdr_call_id(&self) -> (r: String)
        ensures
            r@ == text_or_empty(call_id_of(self@.message.headers)),
    {
        or_empty(self.message.call_id())
    }

    pub fn cdr_from_uri(&self) -> (r: String)
        ensures
            r@ == text_or_empty(address_uri(self@.message.headers, "From"@, "f"@)),
    {
        or_empty(self.message.address_uri("From", "f"))
    }

    pub fn cdr_to_uri(&self) -> (r: String)
        ensures
            r@ == text_or_empty(address_uri(self@.message.headers, "To"@, "t"@)),
    {
        or_empty(self.message.address_uri("To", "t"))
    }

    pub fn cdr_ruri(&self) -> (r: String)
        ensures
            r@ == text_or_empty(request_uri_text(self@.message.start)),
    {
        or_empty(self.message.request_uri_text())
    }

    pub fn cdr_source_ip(&self) -> (r: String)
        ensures
            r@ == self@.source_ip,
    {
        self.source_ip.clone()
    }

    pub fn cdr_transport(&self) -> (r: String)
        ensures
            r@ == self@.transport,
    {
        self.transport_name.clone()
    }

    /// The key of the record that is kept for this call: its identifier.
    pub fn cdr_session_key_candidates(&self) -> (r: Vec<String>)
        ensures
            texts(r@) == seq![self@.id],
    {
        let keys: Vec<String> = vec![self.id.clone()];
        assert(texts(keys@) =~= seq![self@.id]);
        keys
    }

    /// The keys under which a charging record of this call may be kept.
    /// `charging_key` is the key of the record that the message's charging
    /// vector names.
    pub fn cdr_rf_dialog_key_candidates(&self, charging_key: Option<String>) -> (r: Vec<String>)
        ensures
            texts(r@) == rf_keys(self@, opt_text(charging_key)),
    {
        let mut keys: Vec<String> = vec!["b2bua:".to_owned().concat(&self.id)];
        assert(texts(keys@) =~= seq!["b2bua:"@ + self@.id]);
        if let Some(key) = charging_key {
            keys.push(key);
        }
        let ghost head = texts(keys@);
        let mut rest = self.message.dialog_keys();
        let ghost tail = texts(rest@);
        keys.append(&mut rest);
        assert(texts(keys@) =~= head + tail);
        assert(texts(keys@) =~= rf_keys(self@, opt_text(charging_key)));
        keys
    }

    /// The charging parameter that is to be stored for the caller's dialog;
    /// none where the INVITE names no dialog.
    pub fn set_charging_param(&self, name: &str, value: &str) -> (r: Option<ChargingParam>)
        ensures
            match r {
                Some(param) => {
                    &&& call_id_of(self@.message.headers) matches Some(call_id)
                    &&& address_tag(self@.message.headers, "From"@, "f"@) matches Some(tag)
                    &&& param.dialog_key@ == dialog_key(call_id, tag)
                    &&& param.name@ == name@
                    &&& param.value@ == value@
                },
                None => call_id_of(self@.message.headers) is None || address_tag(
                    self@.message.headers,
                    "From"@,
                    "f"@,
                ) is None,
            },
    {
        match (self.message.call_id(), self.message.address_tag("From", "f")) {
            (Some(call_id), Some(tag)) => Some(
                ChargingParam {
                    dialog_key: make_dialog_key(&call_id, &tag),
                    name: name.to_owned(),
                    value: value.to_owned(),
                },
            ),
            _ => None,
        }
    }

    pub fn preserve_call_id(&self) -> (r: bool)
        ensures
            r == self@.preserve_call_id,
    {
        self.preserve_call_id_flag
    }

    /// The callee is to see the Call-ID of the caller.
    pub fn keep_call_id(&mut self)
        ensures
            final(self)@ == (CallText { preserve_call_id: true, ..old(self)@ }),
    {
        self.preserve_call_id_flag = true;
    }

    pub fn from_host_override(&self) -> (r: Option<&str>)
        ensures
            opt_str(r) == self@.from_host,
    {
        opt_slice(&self.from_host_override)
    }

    pub fn to_host_override(&self) -> (r: Option<&str>)
        ensures
            opt_str(r) == self@.to_host,
    {
        opt_slice(&self.to_host_override)
    }

    pub fn contact_user_override(&self) -> (r: Option<&str>)
        ensures
            opt_str(r) == self@.contact_user,
    {
        opt_slice(&self.contact_user_override)
    }

    pub fn contact_override(&self) -> (r: Option<&str>)
        ensures
            opt_str(r) == self@.contact,
    {
        opt_slice(&self.contact_override)
    }

    /// Records the target of a transfer that a party asked for.
    pub fn set_refer_to(&mut self, uri: String, replaces: Option<Replaces>)
        ensures
            final(self)@ == (CallText {
                refer_to: Some(uri@),
                refer_replaces: opt_replaces(replaces),
                ..old(self)@
            }),
    {
        self.refer_to_uri = Some(uri);
        self.refer_replaces_info = replaces;
    }

    /// Records which leg a transfer came from.
    pub fn set_refer_from_a_leg(&mut self, from_a_leg: bool)
        ensures
            final(self)@ == (CallText { refer_from_a_leg: Some(from_a_leg), ..old(self)@ }),
    {
        self.refer_from_a_leg = Some(from_a_leg);
    }

    pub fn refer_to(&self) -> (r: Option<&str>)
        ensures
            opt_str(r) == self@.refer_to,
    {
        opt_slice(&self.refer_to_uri)
    }

    /// Which side asked for a transfer: "a" for the caller, "b" for the callee.
    pub fn refer_side(&self) -> (r: Option<&str>)
        ensures
            opt_str(r) == match self@.refer_from_a_leg {
                Some(true) => Some("a"@),
                Some(false) => Some("b"@),
                None => None,
            },
    {
        match self.refer_from_a_leg {
            Some(true) => Some("a"),
            Some(false) => Some("b"),
            None => None,
        }
    }

    /// The dialog that a transfer replaces, as a dict; none for a blind one.
    pub fn refer_replaces(&self) -> (r: Option<PyValue>)
        ensures
            match r {
                Some(value) => self@.refer_replaces matches Some(replaces) && value@
                    == replaces_dict(replaces),
                None => self@.refer_replaces is None,
            },
    {
        match &self.refer_replaces_info {
            Some(replaces) => Some(replaces.to_dict()),
            None => None,
        }
    }

    /// The URI of the From header.
    pub fn from_uri(&self) -> (r: Option<SipUri>)
        ensures
            opt_uri(r) == parsed_uri(self@.message.headers, "From"@, "f"@),
    {
        self.parsed_uri("From", "f")
    }

    /// The URI of the To header.
    pub fn to_uri(&self) -> (r: Option<SipUri>)
        ensures
            opt_uri(r) == parsed_uri(self@.message.headers, "To"@, "t"@),
    {
        self.parsed_uri("To", "t")
    }

    fn parsed_uri(&self, name: &str, alias: &str) -> (r: Option<SipUri>)
        ensures
            opt_uri(r) == parsed_uri(self@.message.headers, name@, alias@),
    {
        match self.message.headers.find_or(name, alias) {
            Some(header) => match header.address {
                Some(address) => Some(address.uri),
                None => None,
            },
            None => None,
        }
    }

    /// The request URI of the INVITE.
    pub fn ruri(&self) -> (r: Option<SipUri>)
        ensures
            opt_uri(r) == match self@.message.start {
                StartText::Request { request_uri, .. } => Some(request_uri),
                StartText::Response { .. } => None,
            },
    {
        match &self.message.start_line {
            StartLine::Request { request_uri, .. } => Some(request_uri.copy()),
            StartLine::Response { .. } => None,
        }
    }

    /// The Call-ID of the INVITE.
    pub fn call_id(&self) -> (r: Option<String>)
        ensures
            opt_text(r) == call_id_of(self@.message.headers),
    {
        self.message.call_id()
    }

    /// The text of a header.
    pub fn get_header(&self, name: &str) -> (r: Option<String>)
        ensures
            opt_text(r) == header_value(self@.message.headers, name@),
    {
        self.message.headers.get(name)
    }

    /// The text of a header.
    pub fn header(&self, name: &str) -> (r: Option<String>)
        ensures
            opt_text(r) == header_value(self@.message.headers, name@),
    {
        self.get_header(name)
    }

    pub fn has_header(&self, name: &str) -> (r: bool)
        ensures
            r == (header_of(self@.message.headers, name@) is Some),
    {
        self.message.headers.position(name).is_some()
    }

    /// The body of the INVITE; none where it is empty.
    pub fn body(&self) -> (r: Option<Vec<u8>>)
        ensures
            match r {
                Some(body) => body@ == self@.message.body && body@.len() > 0,
                None => self@.message.body.len() == 0,
            },
    {
        if self.message.body.len() == 0 {
            None
        } else {
            let mut body: Vec<u8> = Vec::new();
            body.extend_from_slice(self.message.body.as_slice());
            assert(body@ =~= self.message.body@);
            Some(body)
        }
    }
}

/// An optional URI as its parts.
pub open spec fn opt_uri(uri: Option<SipUri>) -> Option<UriText> {
    match uri {
        Some(uri) => Some(uri@),
        None => None,
    }
}

/// The URI of an address header.
pub open spec fn parsed_uri(h: Seq<HeaderText>, name: Seq<char>, alias: Seq<char>) -> Option<UriText> {
    match header_or(h, name, alias) {
        Some(header) => match header.address {
            Some(address) => Some(address.uri),
            None => None,
        },
        None => None,
    }
}

/// More networks never lose a match, wherever they are added.
pub proof fn more_networks_keep_a_match(before: Seq<Seq<char>>, added: Seq<Seq<char>>, ip: IpAddr)
    requires
        in_any(before, ip),
    ensures
        in_any(before + added, ip),
        in_any(added + before, ip),
{
    let i = choose|i: int| 0 <= i < before.len() && names_network_of(#[trigger] before[i], ip);
    assert((before + added)[i] == before[i]);
    assert((added + before)[added.len() + i] == before[i]);
}

/// An entry that is no network changes nothing.
pub proof fn malformed_networks_are_skipped(cidrs: Seq<Seq<char>>, entry: Seq<char>, ip: IpAddr)
    requires
        network_of(entry) is None,
    ensures
        in_any(cidrs.push(entry), ip) == in_any(cidrs, ip),
{
    if in_any(cidrs, ip) {
        let i = choose|i: int| 0 <= i < cidrs.len() && names_network_of(#[trigger] cidrs[i], ip);
        assert(cidrs.push(entry)[i] == cidrs[i]);
    }
    if in_any(cidrs.push(entry), ip) {
        let i = choose|i: int|
            0 <= i < cidrs.len() + 1 && names_network_of(#[trigger] cidrs.push(entry)[i], ip);
        assert(i < cidrs.len());
        assert(cidrs[i] == cidrs.push(entry)[i]);
    }
}

} // verus!
