//! What a script can decide about a call.

use crate::error::{value_error, ErrorText, ScriptError};
use crate::lcr::{routes_text, Route, RouteText};
use crate::net::SocketAddr;
use crate::pyvalue::{
    as_bool, as_text, entries_text, entry, find_entry, PyText, PyValue,
};
use crate::sip::copy_opt;
use crate::text::{copy_texts, opt_text, pairs_text, same_text, texts};
use vstd::prelude::*;
use vstd::string::*;

verus! {

/// Session timer parameters that a script set for one call.
#[derive(Debug, PartialEq)]
pub struct SessionTimerOverride {
    pub session_expires: u32,
    pub min_se: u32,
    pub refresher: String,
}

/// Session timer parameters as mathematical data.
pub struct TimerText {
    pub session_expires: u32,
    pub min_se: u32,
    pub refresher: Seq<char>,
}

impl View for SessionTimerOverride {
    type V = TimerText;

    open spec fn view(&self) -> TimerText {
        TimerText {
            session_expires: self.session_expires,
            min_se: self.min_se,
            refresher: self.refresher@,
        }
    }
}

/// An inbound flow: the connection that a message arrived on.
#[derive(Debug, PartialEq, Eq, Hash)]
pub struct PyFlow {
    pub transport: String,
    pub source_addr: SocketAddr,
    pub local_addr: SocketAddr,
    pub connection_id: u64,
}

/// A flow as mathematical data.
pub struct FlowText {
    pub transport: Seq<char>,
    pub source_addr: SocketAddr,
    pub local_addr: SocketAddr,
    pub connection_id: u64,
}

impl View for PyFlow {
    type V = FlowText;

    open spec fn view(&self) -> FlowText {
        FlowText {
            transport: self.transport@,
            source_addr: self.source_addr,
            local_addr: self.local_addr,
            connection_id: self.connection_id,
        }
    }
}

/// An optional flow as mathematical data.
pub open spec fn opt_flow(flow: Option<PyFlow>) -> Option<FlowText> {
    match flow {
        Some(flow) => Some(flow@),
        None => None,
    }
}

/// The flows of a list.
pub open spec fn flows_text(v: Seq<Option<PyFlow>>) -> Seq<Option<FlowText>> {
    Seq::new(v.len(), |i: int| opt_flow(v[i]))
}

impl PyFlow {
    pub fn transport(&self) -> (r: &str)
        ensures
            r@ == self@.transport,
    {
        self.transport.as_str()
    }

    pub fn remote_addr(&self) -> (r: String)
        ensures
            r@ == crate::net::socket_text(self@.source_addr),
    {
        self.source_addr.render()
    }

    pub fn local_addr(&self) -> (r: String)
        ensures
            r@ == crate::net::socket_text(self@.local_addr),
    {
        self.local_addr.render()
    }

    pub fn connection_id(&self) -> (r: u64)
        ensures
            r == self@.connection_id,
    {
        self.connection_id
    }

    /// Whether two flows are the same connection: the transport, both
    /// addresses and the connection agree.
    pub fn same_flow(&self, other: &PyFlow) -> (r: bool)
        ensures
            r == (self@ == other@),
    {
        same_text(&self.transport, &other.transport) && self.source_addr == other.source_addr
            && self.local_addr == other.local_addr && self.connection_id == other.connection_id
    }

    pub fn copy(&self) -> (r: Self)
        ensures
            r@ == self@,
    {
        PyFlow {
            transport: self.transport.clone(),
            source_addr: self.source_addr,
            local_addr: self.local_addr,
            connection_id: self.connection_id,
        }
    }
}

pub fn copy_flow(flow: &Option<PyFlow>) -> (r: Option<PyFlow>)
    ensures
        opt_flow(r) == opt_flow(*flow),
{
    match flow {
        Some(flow) => Some(flow.copy()),
        None => None,
    }
}

/// A registered binding. `path` is the proxy chain that it registered through.
#[derive(Debug, PartialEq)]
pub struct PyContact {
    pub uri: String,
    pub flow: Option<PyFlow>,
    pub is_local: bool,
    pub path: Vec<String>,
}

/// One branch of a fork as mathematical data: where it goes, the flow that it
/// is sent over, and its route set.
pub struct BranchText {
    pub uri: Seq<char>,
    pub flow: Option<FlowText>,
    pub path: Seq<Seq<char>>,
}

/// The branch that a binding stands for. The flow counts only where this
/// process accepted the registration.
pub open spec fn contact_branch(contact: PyContact) -> BranchText {
    BranchText {
        uri: contact.uri@,
        flow: if contact.is_local {
            opt_flow(contact.flow)
        } else {
            None
        },
        path: texts(contact.path@),
    }
}

impl PyContact {
    /// The URI, the flow and the route set of the branch to this binding.
    pub fn fork_target(&self) -> (r: (String, Option<PyFlow>, Vec<String>))
        ensures
            (BranchText { uri: r.0@, flow: opt_flow(r.1), path: texts(r.2@) }) == contact_branch(
                *self,
            ),
    {
        let flow = if self.is_local {
            copy_flow(&self.flow)
        } else {
            None
        };
        (self.uri.clone(), flow, copy_texts(&self.path))
    }
}

/// The dialog that an attended transfer replaces.
#[derive(Debug, PartialEq)]
pub struct Replaces {
    pub call_id: String,
    pub from_tag: String,
    pub to_tag: String,
    pub early_only: bool,
}

/// A replaced dialog as mathematical data.
pub struct ReplacesText {
    pub call_id: Seq<char>,
    pub from_tag: Seq<char>,
    pub to_tag: Seq<char>,
    pub early_only: bool,
}

impl View for Replaces {
    type V = ReplacesText;

    open spec fn view(&self) -> ReplacesText {
        ReplacesText {
            call_id: self.call_id@,
            from_tag: self.from_tag@,
            to_tag: self.to_tag@,
            early_only: self.early_only,
        }
    }
}

/// An optional replaced dialog as mathematical data.
pub open spec fn opt_replaces(r: Option<Replaces>) -> Option<ReplacesText> {
    match r {
        Some(replaces) => Some(replaces@),
        None => None,
    }
}

/// The target of a transfer.
#[derive(Debug, PartialEq)]
pub struct ReferTo {
    pub uri: String,
    pub replaces: Option<Replaces>,
}

/// How a transfer is honored.
#[derive(Clone, Copy, Debug, PartialEq, Eq, Structural)]
pub enum ReferMode {
    Terminate,
    Transparent,
}

/// What a script decided about a call.
#[derive(Debug, PartialEq)]
pub enum CallAction {
    NoAction,
    Reject { code: u16, reason: String },
    Dial {
        target: String,
        next_hop: Option<String>,
        flow: Option<PyFlow>,
        route: Vec<String>,
        send_socket: Option<String>,
        timeout: u32,
    },
    Fork {
        targets: Vec<String>,
        flows: Vec<Option<PyFlow>>,
        routes: Vec<Vec<String>>,
        strategy: String,
        send_socket: Option<String>,
        timeout: u32,
    },
    Terminate,
    AcceptRefer {
        target: Option<String>,
        next_hop: Option<String>,
        mode: Option<ReferMode>,
        profile: Option<String>,
    },
    RejectRefer { code: u16, reason: String },
    SendRefer { refer_to: ReferTo },
    Answered,
    Handover {
        app: String,
        on_lost: Option<String>,
        deadline_ms: Option<u64>,
        vars: Vec<(String, String)>,
        answer: bool,
        profile: Option<String>,
        ws_uri: Option<String>,
    },
    RouteSequence { routes: Vec<Route>, send_socket: Option<String>, default_timeout: u32 },
}

/// A decision as mathematical data.
pub enum ActionText {
    NoAction,
    Reject { code: u16, reason: Seq<char> },
    Dial {
        target: Seq<char>,
        next_hop: Option<Seq<char>>,
        flow: Option<FlowText>,
        route: Seq<Seq<char>>,
        send_socket: Option<Seq<char>>,
        timeout: u32,
    },
    Fork {
        targets: Seq<Seq<char>>,
        flows: Seq<Option<FlowText>>,
        routes: Seq<Seq<Seq<char>>>,
        strategy: Seq<char>,
        send_socket: Option<Seq<char>>,
        timeout: u32,
    },
    Terminate,
    AcceptRefer {
        target: Option<Seq<char>>,
        next_hop: Option<Seq<char>>,
        mode: Option<ReferMode>,
        profile: Option<Seq<char>>,
    },
    RejectRefer { code: u16, reason: Seq<char> },
    SendRefer { uri: Seq<char>, replaces: Option<ReplacesText> },
    Answered,
    Handover {
        app: Seq<char>,
        on_lost: Option<Seq<char>>,
        deadline_ms: Option<u64>,
        vars: Seq<(Seq<char>, Seq<char>)>,
        answer: bool,
        profile: Option<Seq<char>>,
        ws_uri: Option<Seq<char>>,
    },
    RouteSequence { routes: Seq<RouteText>, send_socket: Option<Seq<char>>, default_timeout: u32 },
}

/// The lists of texts that a list of lists holds.
pub open spec fn text_lists(v: Seq<Vec<String>>) -> Seq<Seq<Seq<char>>> {
    Seq::new(v.len(), |i: int| texts(v[i]@))
}

impl View for CallAction {
    type V = ActionText;

    open spec fn view(&self) -> ActionText {
        match *self {
            CallAction::NoAction => ActionText::NoAction,
            CallAction::Reject { code, reason } => ActionText::Reject { code, reason: reason@ },
            CallAction::Dial { target, next_hop, flow, route, send_socket, timeout } =>
                ActionText::Dial {
                    target: target@,
                    next_hop: opt_text(next_hop),
                    flow: opt_flow(flow),
                    route: texts(route@),
                    send_socket: opt_text(send_socket),
                    timeout,
                },
            CallAction::Fork { targets, flows, routes, strategy, send_socket, timeout } =>
                ActionText::Fork {
                    targets: texts(targets@),
                    flows: flows_text(flows@),
                    routes: text_lists(routes@),
                    strategy: strategy@,
                    send_socket: opt_text(send_socket),
                    timeout,
                },
            CallAction::Terminate => ActionText::Terminate,
            CallAction::AcceptRefer { target, next_hop, mode, profile } => ActionText::AcceptRefer {
                target: opt_text(target),
                next_hop: opt_text(next_hop),
                mode,
                profile: opt_text(profile),
            },
            CallAction::RejectRefer { code, reason } => ActionText::RejectRefer {
                code,
                reason: reason@,
            },
            CallAction::SendRefer { refer_to } => ActionText::SendRefer {
                uri: refer_to.uri@,
                replaces: opt_replaces(refer_to.replaces),
            },
            CallAction::Answered => ActionText::Answered,
            CallAction::Handover { app, on_lost, deadline_ms, vars, answer, profile, ws_uri } =>
                ActionText::Handover {
                    app: app@,
                    on_lost: opt_text(on_lost),
                    deadline_ms,
                    vars: pairs_text(vars@),
                    answer,
                    profile: opt_text(profile),
                    ws_uri: opt_text(ws_uri),
                },
            CallAction::RouteSequence { routes, send_socket, default_timeout } =>
                ActionText::RouteSequence {
                    routes: routes_text(routes@),
                    send_socket: opt_text(send_socket),
                    default_timeout,
                },
        }
    }
}

/// The text that a dict must hold under a key.
pub open spec fn required_text(d: Seq<(Seq<char>, PyText)>, key: Seq<char>) -> Result<
    Seq<char>,
    ErrorText,
> {
    match entry(d, key) {
        Some(value) => as_text(value),
        None => Err(value_error("replaces dict requires a '"@ + key + "' key"@)),
    }
}

/// The replaced dialog that a dict describes.
pub open spec fn replaces_of(d: Seq<(Seq<char>, PyText)>) -> Result<ReplacesText, ErrorText> {
    match required_text(d, "call_id"@) {
        Err(e) => Err(e),
        Ok(call_id) => match required_text(d, "from_tag"@) {
            Err(e) => Err(e),
            Ok(from_tag) => match required_text(d, "to_tag"@) {
                Err(e) => Err(e),
                Ok(to_tag) => {
                    let early_only = match entry(d, "early_only"@) {
                        Some(value) => as_bool(value),
                        None => Ok(false),
                    };
                    match early_only {
                        Err(e) => Err(e),
                        Ok(early_only) => Ok(
                            ReplacesText { call_id, from_tag, to_tag, early_only },
                        ),
                    }
                },
            },
        },
    }
}

/// The replaced dialog that an optional dict describes: none for a blind
/// transfer.
pub open spec fn opt_replaces_of(d: Option<Seq<(Seq<char>, PyText)>>) -> Result<
    Option<ReplacesText>,
    ErrorText,
> {
    match d {
        None => Ok(None),
        Some(d) => match replaces_of(d) {
            Ok(replaces) => Ok(Some(replaces)),
            Err(e) => Err(e),
        },
    }
}

/// The entries of an optional dict.
pub open spec fn opt_entries(d: Option<&Vec<(String, PyValue)>>) -> Option<Seq<(Seq<char>, PyText)>> {
    match d {
        Some(v) => Some(entries_text(v@)),
        None => None,
    }
}

fn read_required(dict: &Vec<(String, PyValue)>, key: &str) -> (r: Result<String, ScriptError>)
    ensures
        match r {
            Ok(s) => required_text(entries_text(dict@), key@) == Ok::<Seq<char>, ErrorText>(s@),
            Err(e) => required_text(entries_text(dict@), key@) == Err::<Seq<char>, ErrorText>(e@),
        },
{
    match find_entry(dict, key) {
        Some(value) => value.as_text(),
        None => Err(
            ScriptError::value("replaces dict requires a '".to_owned().concat(key).concat("' key")),
        ),
    }
}

/// The replaced dialog that a script's dict describes; none for a blind
/// transfer.
pub fn parse_replaces_dict(dict: Option<&Vec<(String, PyValue)>>) -> (r: Result<
    Option<Replaces>,
    ScriptError,
>)
    ensures
        match r {
            Ok(replaces) => opt_replaces_of(opt_entries(dict)) == Ok::<
                Option<ReplacesText>,
                ErrorText,
            >(opt_replaces(replaces)),
            Err(e) => opt_replaces_of(opt_entries(dict)) == Err::<Option<ReplacesText>, ErrorText>(
                e@,
            ),
        },
{
    let dict = match dict {
        Some(dict) => dict,
        None => {
            return Ok(None);
        },
    };
    let call_id = match read_required(dict, "call_id") {
        Ok(s) => s,
        Err(e) => {
            return Err(e);
        },
    };
    let from_tag = match read_required(dict, "from_tag") {
        Ok(s) => s,
        Err(e) => {
            return Err(e);
        },
    };
    let to_tag = match read_required(dict, "to_tag") {
        Ok(s) => s,
        Err(e) => {
            return Err(e);
        },
    };
    let early_only = match find_entry(dict, "early_only") {
        Some(value) => match value.as_bool() {
            Ok(b) => b,
            Err(e) => {
                return Err(e);
            },
        },
        None => false,
    };
    Ok(Some(Replaces { call_id, from_tag, to_tag, early_only }))
}

/// Which side ended a call: "a" for the caller, "b" for the callee.
#[derive(Debug, PartialEq)]
pub struct PyByeInitiator {
    pub side: String,
}

/// The media anchor of a call.
#[derive(Debug, PartialEq)]
pub struct PyMediaHandle {
    anchored: bool,
    engine: String,
    profile: String,
}

/// A media anchor as mathematical data.
pub struct MediaText {
    pub anchored: bool,
    pub engine: Seq<char>,
    pub profile: Seq<char>,
}

impl View for PyMediaHandle {
    type V = MediaText;

    closed spec fn view(&self) -> MediaText {
        MediaText { anchored: self.anchored, engine: self.engine@, profile: self.profile@ }
    }
}

/// No anchor yet, with the engine and profile that an anchor has by default.
pub open spec fn default_media() -> MediaText {
    MediaText { anchored: false, engine: "rtpengine"@, profile: "srtp_to_rtp"@ }
}

impl Default for PyMediaHandle {
    fn default() -> (r: Self)
        ensures
            r@ == default_media(),
    {
        PyMediaHandle {
            anchored: false,
            engine: "rtpengine".to_owned(),
            profile: "srtp_to_rtp".to_owned(),
        }
    }
}

impl PyMediaHandle {
    pub fn is_anchored(&self) -> (r: bool)
        ensures
            r == self@.anchored,
    {
        self.anchored
    }

    pub fn engine(&self) -> (r: &str)
        ensures
            r@ == self@.engine,
    {
        self.engine.as_str()
    }

    pub fn profile_name(&self) -> (r: &str)
        ensures
            r@ == self@.profile,
    {
        self.profile.as_str()
    }

    /// Anchors media through an engine, with a profile.
    pub fn anchor(&mut self, engine: &str, profile: &str)
        ensures
            final(self)@ == (MediaText { anchored: true, engine: engine@, profile: profile@ }),
    {
        self.anchored = true;
        self.engine = engine.to_owned();
        self.profile = profile.to_owned();
    }

    /// Gives the anchor up; engine and profile stay.
    pub fn release(&mut self)
        ensures
            final(self)@ == (MediaText { anchored: false, ..old(self)@ }),
    {
        self.anchored = false;
    }

    pub fn is_active(&self) -> (r: bool)
        ensures
            r == self@.anchored,
    {
        self.anchored
    }

    pub fn copy(&self) -> (r: Self)
        ensures
            r@ == self@,
    {
        PyMediaHandle {
            anchored: self.anchored,
            engine: self.engine.clone(),
            profile: self.profile.clone(),
        }
    }
}

/// The header policy that a script gave for a call: a preset, and what differs
/// from it.
#[derive(Debug, PartialEq)]
pub struct HeaderPolicyInput {
    pub policy_name: Option<String>,
    pub deltas_copy: Vec<String>,
    pub deltas_strip: Vec<String>,
    pub deltas_translate: Vec<(String, String)>,
}

/// A header policy as mathematical data.
pub struct PolicyInputText {
    pub policy_name: Option<Seq<char>>,
    pub copy: Seq<Seq<char>>,
    pub strip: Seq<Seq<char>>,
    pub translate: Seq<(Seq<char>, Seq<char>)>,
}

impl View for HeaderPolicyInput {
    type V = PolicyInputText;

    open spec fn view(&self) -> PolicyInputText {
        PolicyInputText {
            policy_name: opt_text(self.policy_name),
            copy: texts(self.deltas_copy@),
            strip: texts(self.deltas_strip@),
            translate: pairs_text(self.deltas_translate@),
        }
    }
}

/// A carrier attempt that failed.
#[derive(Debug, PartialEq)]
pub struct RouteAttempt {
    pub carrier_id: String,
    pub status: u16,
    pub elapsed_ms: u64,
    pub dialed: bool,
}

/// A failed attempt as a script sees it.
pub open spec fn attempt_dict(a: RouteAttempt) -> PyText {
    PyText::Dict(
        seq![
            ("carrier_id"@, PyText::Text(a.carrier_id@)),
            ("status"@, PyText::Int(a.status as int)),
            ("elapsed_ms"@, PyText::Int(a.elapsed_ms as int)),
            ("dialed"@, PyText::Bool(a.dialed)),
        ],
    )
}

impl RouteAttempt {
    /// The attempt as a dict.
    pub fn to_dict(&self) -> (r: PyValue)
        ensures
            r@ == attempt_dict(*self),
    {
        let entries: Vec<(String, PyValue)> = vec![
            ("carrier_id".to_owned(), PyValue::text(&self.carrier_id)),
            ("status".to_owned(), PyValue::Int(self.status as i128)),
            ("elapsed_ms".to_owned(), PyValue::Int(self.elapsed_ms as i128)),
            ("dialed".to_owned(), PyValue::Bool(self.dialed)),
        ];
        assert(PyText::Dict(entries_text(entries@)) == attempt_dict(*self)) by {
            assert(entries_text(entries@) =~= seq![
                ("carrier_id"@, PyText::Text(self.carrier_id@)),
                ("status"@, PyText::Int(self.status as int)),
                ("elapsed_ms"@, PyText::Int(self.elapsed_ms as int)),
                ("dialed"@, PyText::Bool(self.dialed)),
            ]);
        }
        PyValue::dict(entries)
    }
}

/// A replaced dialog as a script sees it.
pub open spec fn replaces_dict(r: ReplacesText) -> PyText {
    PyText::Dict(
        seq![
            ("call_id"@, PyText::Text(r.call_id)),
            ("from_tag"@, PyText::Text(r.from_tag)),
            ("to_tag"@, PyText::Text(r.to_tag)),
            ("early_only"@, PyText::Bool(r.early_only)),
        ],
    )
}

impl Replaces {
    /// The replaced dialog as a dict.
    pub fn to_dict(&self) -> (r: PyValue)
        ensures
            r@ == replaces_dict(self@),
    {
        let entries: Vec<(String, PyValue)> = vec![
            ("call_id".to_owned(), PyValue::text(&self.call_id)),
            ("from_tag".to_owned(), PyValue::text(&self.from_tag)),
            ("to_tag".to_owned(), PyValue::text(&self.to_tag)),
            ("early_only".to_owned(), PyValue::Bool(self.early_only)),
        ];
        assert(PyText::Dict(entries_text(entries@)) == replaces_dict(self@)) by {
            assert(entries_text(entries@) =~= seq![
                ("call_id"@, PyText::Text(self.call_id@)),
                ("from_tag"@, PyText::Text(self.from_tag@)),
                ("to_tag"@, PyText::Text(self.to_tag@)),
                ("early_only"@, PyText::Bool(self.early_only)),
            ]);
        }
        PyValue::dict(entries)
    }
}

/// What came of a credit reservation before a call is dialed.
pub struct RoOutcome {
    pub authorized: bool,
    pub result_code: Option<u32>,
    pub granted_time: Option<u32>,
    pub session_id: Option<String>,
}

/// An optional number as a script sees it.
pub open spec fn opt_number(n: Option<u32>) -> PyText {
    match n {
        Some(n) => PyText::Int(n as int),
        None => PyText::Nothing,
    }
}

/// An optional text as a script sees it.
pub open spec fn opt_value(s: Option<Seq<char>>) -> PyText {
    match s {
        Some(s) => PyText::Text(s),
        None => PyText::Nothing,
    }
}

/// What a script sees of a credit reservation.
pub open spec fn reservation_dict(o: RoOutcome) -> PyText {
    PyText::Dict(
        seq![
            ("authorized"@, PyText::Bool(o.authorized)),
            ("result_code"@, opt_number(o.result_code)),
            ("granted_time"@, opt_number(o.granted_time)),
            ("session_id"@, opt_value(opt_text(o.session_id))),
        ],
    )
}

impl RoOutcome {
    /// The reservation as a dict.
    pub fn to_dict(&self) -> (r: PyValue)
        ensures
            r@ == reservation_dict(*self),
    {
        let entries: Vec<(String, PyValue)> = vec![
            ("authorized".to_owned(), PyValue::Bool(self.authorized)),
            ("result_code".to_owned(), PyValue::opt_u32(self.result_code)),
            ("granted_time".to_owned(), PyValue::opt_u32(self.granted_time)),
            ("session_id".to_owned(), PyValue::opt_text(copy_opt(&self.session_id))),
        ];
        assert(PyText::Dict(entries_text(entries@)) == reservation_dict(*self)) by {
            assert(entries_text(entries@) =~= seq![
                ("authorized"@, PyText::Bool(self.authorized)),
                ("result_code"@, opt_number(self.result_code)),
                ("granted_time"@, opt_number(self.granted_time)),
                ("session_id"@, opt_value(opt_text(self.session_id))),
            ]);
        }
        PyValue::dict(entries)
    }
}

/// A dict that a script reads back describes the dialog that it was made of.
pub proof fn replaces_round_trip(r: ReplacesText, d: Seq<(Seq<char>, PyText)>)
    requires
        replaces_dict(r) == PyText::Dict(d),
    ensures
        replaces_of(d) == Ok::<ReplacesText, ErrorText>(r),
{
    reveal_strlit("call_id");
    reveal_strlit("from_tag");
    reveal_strlit("to_tag");
    reveal_strlit("early_only");
    assert("from_tag"@.len() == 8 && "call_id"@.len() == 7 && "to_tag"@.len() == 6
        && "early_only"@.len() == 10);
    reveal_with_fuel(entry, 5);
    let rest = d.skip(1);
    assert(rest[0] == d[1]);
    assert(rest.skip(1)[0] == d[2]);
    assert(rest.skip(1).skip(1)[0] == d[3]);
}

} // verus!
