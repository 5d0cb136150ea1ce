//! Where a call goes: dialing, forking, carrier sequences, transfers, and the
//! answers that are given without a callee.

use crate::call::action::{
    contact_branch, flows_text, opt_entries, opt_flow, opt_replaces_of, parse_replaces_dict,
    text_lists, ActionText, BranchText, CallAction, FlowText, HeaderPolicyInput, PolicyInputText,
    PyContact, PyFlow, ReferMode, ReferTo, ReplacesText,
};
use crate::call::{CallText, PyCall};
use crate::digest::{bare_uri, extract_sip_uri};
use crate::error::{type_error, value_error, ErrorText, ScriptError};
use crate::lcr::{route_to, routes_text, PyRoute, Route, RouteText};
use crate::net::{socket_of, SocketAddr};
use crate::numbers::{
    apply_for_dial, apply_for_fork, dial_policy, reshaped_target, reshaped_targets,
    resolve_dial_policy, with_identities, NumberRuntime, Reshaped, ReshapedText, RuntimeText,
};
use crate::pyvalue::{as_text, PyText, PyValue};
use crate::sec_agree::{join_tokens, joined};
use crate::sip::same_name;
use crate::text::{
    chars_of, debug_quoted, decimal, decimal_text, find_char, find_char_in, lower, opt_str,
    opt_text, own_opt, pairs_text, quote_debug, same_ignoring_case, same_text, string_between,
    texts, to_lower,
};
use vstd::prelude::*;
use vstd::string::*;
use vstd::utf8::encode_utf8;

verus! {

/// A transport name.
pub open spec fn is_transport(name: Seq<char>) -> bool {
    name == "udp"@ || name == "tcp"@ || name == "tls"@ || name == "ws"@ || name == "wss"@ || name
        == "sctp"@
}

/// A listener that a request leaves from: a transport, a colon, and an address
/// with a port.
pub open spec fn is_send_socket(s: Seq<char>) -> bool {
    let at = find_char(s, ':', 0);
    &&& at < s.len()
    &&& is_transport(lower(s.take(at)))
    &&& socket_of(s.skip(at + 1)) is Some
}

pub open spec fn send_socket_error(s: Seq<char>) -> ErrorText {
    value_error(
        "send_socket must be 'transport:ip:port', got "@ + debug_quoted(s),
    )
}

/// The error of a listener that is malformed, if one was given.
pub open spec fn send_socket_fault(s: Option<Seq<char>>) -> Option<ErrorText> {
    match s {
        Some(s) => if is_send_socket(s) {
            None
        } else {
            Some(send_socket_error(s))
        },
        None => None,
    }
}

/// Checks the form of a listener that a script names.
pub fn validate_send_socket(send_socket: &Option<String>) -> (r: Result<(), ScriptError>)
    ensures
        match r {
            Ok(()) => send_socket_fault(opt_text(*send_socket)) is None,
            Err(e) => send_socket_fault(opt_text(*send_socket)) == Some(e@),
        },
{
    let value = match send_socket {
        Some(value) => value,
        None => {
            return Ok(());
        },
    };
    let chars = chars_of(value);
    let at = find_char_in(&chars, ':', 0);
    if at < chars.len() {
        let name = to_lower(&string_between(&chars, 0, at));
        let rest = string_between(&chars, at + 1, chars.len());
        assert(chars@.subrange(0, at as int) =~= value@.take(at as int));
        assert(rest@ =~= value@.skip(at + 1));
        let known = same_text(&name, "udp") || same_text(&name, "tcp") || same_text(&name, "tls")
            || same_text(&name, "ws") || same_text(&name, "wss") || same_text(&name, "sctp");
        if known && SocketAddr::parse(&rest).is_some() {
            return Ok(());
        }
    }
    Err(
        ScriptError::value(
            "send_socket must be 'transport:ip:port', got ".to_owned().concat(&quote_debug(value)),
        ),
    )
}

/// A header is in a list, without regard to case.
pub open spec fn listed(list: Seq<Seq<char>>, header: Seq<char>) -> bool {
    exists|i: int| 0 <= i < list.len() && same_name(#[trigger] list[i], header)
}

/// A list with a header that it may lack.
pub open spec fn with_listed(list: Seq<Seq<char>>, header: Seq<char>) -> Seq<Seq<char>> {
    if listed(list, header) {
        list
    } else {
        list.push(header)
    }
}

/// The headers to copy, with the two that carry a challenge and its answer.
pub open spec fn auth_copies(list: Seq<Seq<char>>) -> Seq<Seq<char>> {
    with_listed(with_listed(list, "Proxy-Authenticate"@), "Proxy-Authorization"@)
}

fn add_listed(list: &mut Vec<String>, header: &str)
    ensures
        texts(final(list)@) == with_listed(texts(old(list)@), header@),
{
    let ghost all = texts(list@);
    let mut i: usize = 0;
    while i < list.len()
        invariant
            i <= list@.len(),
            list@ == old(list)@,
            all == texts(list@),
            forall|k: int| 0 <= k < i ==> !same_name(#[trigger] all[k], header@),
        decreases list@.len() - i,
    {
        assert(all[i as int] == list@[i as int]@);
        if same_ignoring_case(&list[i], header) {
            assert(listed(all, header@));
            return ;
        }
        i += 1;
    }
    assert(!listed(all, header@));
    list.push(header.to_owned());
    assert(texts(list@) =~= all.push(header@));
}

/// Adds the headers that carry a challenge and its answer to those to copy,
/// unless they are there.
pub fn add_auth_passthrough_copies(copy: &mut Vec<String>)
    ensures
        texts(final(copy)@) == auth_copies(texts(old(copy)@)),
{
    add_listed(copy, "Proxy-Authenticate");
    add_listed(copy, "Proxy-Authorization");
}

/// The header policy of a call after a script gave one. Without any policy
/// argument nothing changes.
pub open spec fn after_policy(
    before: Option<PolicyInputText>,
    header_policy: Option<Seq<char>>,
    copy: Seq<Seq<char>>,
    strip: Seq<Seq<char>>,
    translate: Seq<(Seq<char>, Seq<char>)>,
) -> Option<PolicyInputText> {
    if header_policy is None && copy.len() == 0 && strip.len() == 0 && translate.len() == 0 {
        before
    } else {
        Some(PolicyInputText { policy_name: header_policy, copy, strip, translate })
    }
}

/// The policy arguments of a dialed or forked call.
pub struct PolicyArgs {
    pub header_policy: Option<String>,
    pub copy: Vec<String>,
    pub strip: Vec<String>,
    pub translate: Vec<(String, String)>,
    pub auth_passthrough: bool,
    pub number_policy: Option<String>,
}

/// Policy arguments as mathematical data.
pub struct PolicyArgsText {
    pub header_policy: Option<Seq<char>>,
    pub copy: Seq<Seq<char>>,
    pub strip: Seq<Seq<char>>,
    pub translate: Seq<(Seq<char>, Seq<char>)>,
    pub auth_passthrough: bool,
    pub number_policy: Option<Seq<char>>,
}

impl View for PolicyArgs {
    type V = PolicyArgsText;

    open spec fn view(&self) -> PolicyArgsText {
        PolicyArgsText {
            header_policy: opt_text(self.header_policy),
            copy: texts(self.copy@),
            strip: texts(self.strip@),
            translate: pairs_text(self.translate@),
            auth_passthrough: self.auth_passthrough,
            number_policy: opt_text(self.number_policy),
        }
    }
}

/// No policy argument at all.
pub open spec fn no_policy_args() -> PolicyArgsText {
    PolicyArgsText {
        header_policy: None,
        copy: Seq::empty(),
        strip: Seq::empty(),
        translate: Seq::empty(),
        auth_passthrough: false,
        number_policy: None,
    }
}

impl PolicyArgs {
    /// No policy argument at all.
    pub fn none() -> (r: Self)
        ensures
            r@ == no_policy_args(),
    {
        let r = PolicyArgs {
            header_policy: None,
            copy: Vec::new(),
            strip: Vec::new(),
            translate: Vec::new(),
            auth_passthrough: false,
            number_policy: None,
        };
        assert(r@.copy =~= Seq::<Seq<char>>::empty());
        assert(r@.strip =~= Seq::<Seq<char>>::empty());
        assert(r@.translate =~= Seq::<(Seq<char>, Seq<char>)>::empty());
        r
    }
}

/// A call after its policy arguments were noted.
pub open spec fn policy_noted(call: CallText, args: PolicyArgsText) -> CallText {
    let copy = if args.auth_passthrough {
        auth_copies(args.copy)
    } else {
        args.copy
    };
    CallText {
        auth_passthrough: call.auth_passthrough || args.auth_passthrough,
        header_policy: after_policy(
            call.header_policy,
            args.header_policy,
            copy,
            args.strip,
            args.translate,
        ),
        ..call
    }
}

/// An optional result of the numbering engine as mathematical data.
pub open spec fn opt_reshaped(r: Option<Reshaped>) -> Option<ReshapedText> {
    match r {
        Some(reshaped) => Some(reshaped@),
        None => None,
    }
}

/// What the numbering engine made of a call counts only where a policy
/// applies.
pub open spec fn applied(policy_applies: bool, reshaped: Option<ReshapedText>) -> Option<ReshapedText> {
    if policy_applies {
        reshaped
    } else {
        None
    }
}

/// A call with reshaped identities.
pub open spec fn renumbered(call: CallText, reshaped: Option<ReshapedText>) -> CallText {
    match reshaped {
        Some(r) => CallText { message: with_identities(call.message, r), ..call },
        None => call,
    }
}

/// Where a call is dialed.
pub struct DialTarget {
    pub uri: String,
    pub timeout: u32,
    pub next_hop: Option<String>,
    pub flow: Option<PyFlow>,
    pub route: Vec<String>,
    pub send_socket: Option<String>,
}

/// A dial target as mathematical data.
pub struct DialText {
    pub uri: Seq<char>,
    pub timeout: u32,
    pub next_hop: Option<Seq<char>>,
    pub flow: Option<FlowText>,
    pub route: Seq<Seq<char>>,
    pub send_socket: Option<Seq<char>>,
}

impl View for DialTarget {
    type V = DialText;

    open spec fn view(&self) -> DialText {
        DialText {
            uri: self.uri@,
            timeout: self.timeout,
            next_hop: opt_text(self.next_hop),
            flow: opt_flow(self.flow),
            route: texts(self.route@),
            send_socket: opt_text(self.send_socket),
        }
    }
}

impl DialTarget {
    /// A target that is reached by its URI alone.
    pub fn to_uri(uri: &str, timeout: u32) -> (r: Self)
        ensures
            r@ == (DialText {
                uri: uri@,
                timeout,
                next_hop: None,
                flow: None,
                route: Seq::empty(),
                send_socket: None,
            }),
    {
        let r = DialTarget {
            uri: uri.to_owned(),
            timeout,
            next_hop: None,
            flow: None,
            route: Vec::new(),
            send_socket: None,
        };
        assert(r@.route =~= Seq::<Seq<char>>::empty());
        r
    }
}

/// A call after it was dialed, or the error for which it stays as it was.
pub open spec fn dialed(
    call: CallText,
    target: DialText,
    args: PolicyArgsText,
    runtime: RuntimeText,
    reshaped: Option<ReshapedText>,
) -> Result<CallText, ErrorText> {
    match send_socket_fault(target.send_socket) {
        Some(e) => Err(e),
        None => match dial_policy(runtime, args.number_policy) {
            Err(e) => Err(e),
            Ok(policy) => {
                let shaped = applied(policy is Some, reshaped);
                let uri = match shaped {
                    Some(r) => reshaped_target(r, policy->0, target.uri),
                    None => target.uri,
                };
                let action = ActionText::Dial {
                    target: uri,
                    next_hop: target.next_hop,
                    flow: target.flow,
                    route: target.route,
                    send_socket: target.send_socket,
                    timeout: target.timeout,
                };
                Ok(policy_noted(CallText { action, ..renumbered(call, shaped) }, args))
            },
        },
    }
}

/// What a fork is to reach: a registered binding, or a value of a script.
pub enum ForkTarget {
    Contact(PyContact),
    Value(PyValue),
}

/// The branch that a fork target stands for. A value must be the text of a URI,
/// and stands for a branch without flow and route set.
pub open spec fn branch_of(target: ForkTarget) -> Result<BranchText, ErrorText> {
    match target {
        ForkTarget::Contact(contact) => Ok(contact_branch(contact)),
        ForkTarget::Value(value) => match as_text(value@) {
            Ok(uri) => Ok(BranchText { uri, flow: None, path: Seq::empty() }),
            Err(e) => Err(e),
        },
    }
}

/// The branches of a fork; the error of the first target that is none.
pub open spec fn branches_of(targets: Seq<ForkTarget>) -> Result<Seq<BranchText>, ErrorText>
    decreases targets.len(),
{
    if targets.len() == 0 {
        Ok(Seq::empty())
    } else {
        match branches_of(targets.drop_last()) {
            Err(e) => Err(e),
            Ok(before) => match branch_of(targets.last()) {
                Err(e) => Err(e),
                Ok(branch) => Ok(before.push(branch)),
            },
        }
    }
}

proof fn lemma_branches_error(targets: Seq<ForkTarget>, n: int)
    requires
        0 <= n <= targets.len(),
        branches_of(targets.take(n)) is Err,
    ensures
        branches_of(targets) == branches_of(targets.take(n)),
    decreases targets.len() - n,
{
    if n == targets.len() {
        assert(targets.take(n) =~= targets);
    } else {
        assert(targets.take(n + 1).drop_last() =~= targets.take(n));
        lemma_branches_error(targets, n + 1);
    }
}

/// The URIs of branches.
pub open spec fn branch_uris(branches: Seq<BranchText>) -> Seq<Seq<char>> {
    Seq::new(branches.len(), |i: int| branches[i].uri)
}

/// The flows of branches.
pub open spec fn branch_flows(branches: Seq<BranchText>) -> Seq<Option<FlowText>> {
    Seq::new(branches.len(), |i: int| branches[i].flow)
}

/// The route sets of branches.
pub open spec fn branch_paths(branches: Seq<BranchText>) -> Seq<Seq<Seq<char>>> {
    Seq::new(branches.len(), |i: int| branches[i].path)
}

/// The carrier of one branch. A route set becomes a Route header, and its first
/// entry is where the branch is sent.
pub open spec fn branch_route(uri: Seq<char>, path: Seq<Seq<char>>) -> RouteText {
    if path.len() == 0 {
        route_to(uri)
    } else {
        RouteText {
            next_hop: Some(bare_uri(path[0])),
            headers: seq![("Route"@, joined(path))],
            ..route_to(uri)
        }
    }
}

/// The carriers of branches, in their order.
pub open spec fn branch_routes(uris: Seq<Seq<char>>, paths: Seq<Seq<Seq<char>>>) -> Seq<RouteText> {
    Seq::new(uris.len(), |i: int| branch_route(uris[i], paths[i]))
}

/// How a fork is made.
pub struct ForkArgs {
    pub strategy: String,
    pub timeout: u32,
    pub send_socket: Option<String>,
}

/// What a fork decides: its branches tried one after the other, or all of them.
pub open spec fn fork_action(
    uris: Seq<Seq<char>>,
    branches: Seq<BranchText>,
    strategy: Seq<char>,
    timeout: u32,
    send_socket: Option<Seq<char>>,
) -> ActionText {
    if same_name(strategy, "sequential"@) {
        ActionText::RouteSequence {
            routes: branch_routes(uris, branch_paths(branches)),
            send_socket,
            default_timeout: timeout,
        }
    } else {
        ActionText::Fork {
            targets: uris,
            flows: branch_flows(branches),
            routes: branch_paths(branches),
            strategy,
            send_socket,
            timeout,
        }
    }
}

/// A call after it was forked, or the error for which it stays as it was.
pub open spec fn forked(
    call: CallText,
    targets: Seq<ForkTarget>,
    fork: ForkArgs,
    args: PolicyArgsText,
    runtime: RuntimeText,
    reshaped: Option<ReshapedText>,
) -> Result<CallText, ErrorText> {
    match send_socket_fault(opt_text(fork.send_socket)) {
        Some(e) => Err(e),
        None => match branches_of(targets) {
            Err(e) => Err(e),
            Ok(branches) => match dial_policy(runtime, args.number_policy) {
                Err(e) => Err(e),
                Ok(policy) => {
                    let shaped = applied(policy is Some, reshaped);
                    let uris = match shaped {
                        Some(r) => reshaped_targets(r, policy->0, branch_uris(branches)),
                        None => branch_uris(branches),
                    };
                    let action = fork_action(
                        uris,
                        branches,
                        fork.strategy@,
                        fork.timeout,
                        opt_text(fork.send_socket),
                    );
                    Ok(policy_noted(CallText { action, ..renumbered(call, shaped) }, args))
                },
            },
        },
    }
}

fn make_branch_route(uri: String, path: &Vec<String>) -> (r: Route)
    ensures
        r@ == branch_route(uri@, texts(path@)),
{
    if path.len() == 0 {
        Route::to_uri(uri)
    } else {
        let next_hop = extract_sip_uri(&path[0]);
        let route_set = join_tokens(path);
        let mut route = Route::to_uri(uri);
        route.next_hop = Some(next_hop);
        route.headers = vec![("Route".to_owned(), route_set)];
        assert(texts(path@)[0] == path@[0]@);
        assert(pairs_text(route.headers@) =~= seq![("Route"@, joined(texts(path@)))]);
        route
    }
}

fn make_branch_routes(uris: &Vec<String>, paths: &Vec<Vec<String>>) -> (r: Vec<Route>)
    requires
        uris@.len() == paths@.len(),
    ensures
        routes_text(r@) == branch_routes(texts(uris@), text_lists(paths@)),
{
    let mut out: Vec<Route> = Vec::new();
    let mut i: usize = 0;
    while i < uris.len()
        invariant
            i <= uris@.len(),
            uris@.len() == paths@.len(),
            out@.len() == i,
            forall|k: int|
                0 <= k < i ==> (#[trigger] out@[k])@ == branch_routes(
                    texts(uris@),
                    text_lists(paths@),
                )[k],
        decreases uris@.len() - i,
    {
        out.push(make_branch_route(uris[i].clone(), &paths[i]));
        i += 1;
    }
    assert(routes_text(out@) =~= branch_routes(texts(uris@), text_lists(paths@)));
    out
}

/// What a script handed over as a carrier.
pub enum RouteArg {
    Route(PyRoute),
    Other,
}

/// The carriers of a list; the error where one of its items is none.
pub open spec fn carriers_of(args: Seq<RouteArg>) -> Result<Seq<RouteText>, ErrorText>
    decreases args.len(),
{
    if args.len() == 0 {
        Ok(Seq::empty())
    } else {
        match carriers_of(args.drop_last()) {
            Err(e) => Err(e),
            Ok(before) => match args.last() {
                RouteArg::Route(route) => Ok(before.push(route@)),
                RouteArg::Other => Err(
                    type_error(
                        "call.route() expects a list of Route objects from lcr.route(...)"@,
                    ),
                ),
            },
        }
    }
}

proof fn lemma_carriers_error(args: Seq<RouteArg>, n: int)
    requires
        0 <= n <= args.len(),
        carriers_of(args.take(n)) is Err,
    ensures
        carriers_of(args) == carriers_of(args.take(n)),
    decreases args.len() - n,
{
    if n == args.len() {
        assert(args.take(n) =~= args);
    } else {
        assert(args.take(n + 1).drop_last() =~= args.take(n));
        lemma_carriers_error(args, n + 1);
    }
}

/// A call after it was given carriers to try in turn.
pub open spec fn routed(
    call: CallText,
    args: Seq<RouteArg>,
    timeout: u32,
    send_socket: Option<Seq<char>>,
) -> Result<CallText, ErrorText> {
    match send_socket_fault(send_socket) {
        Some(e) => Err(e),
        None => match carriers_of(args) {
            Err(e) => Err(e),
            Ok(routes) => if routes.len() == 0 {
                Err(value_error("call.route() requires at least one route"@))
            } else {
                let action = ActionText::RouteSequence {
                    routes,
                    send_socket,
                    default_timeout: timeout,
                };
                Ok(CallText { action, ..call })
            },
        },
    }
}

/// How a call is handed to a control application.
pub struct HandoverArgs {
    pub app: String,
    pub on_lost: Option<String>,
    pub deadline_ms: Option<u64>,
    pub vars: Vec<(String, String)>,
    pub answer: bool,
    pub profile: Option<String>,
    pub ws_uri: Option<String>,
}

/// What is to happen where the control application is lost.
pub open spec fn is_loss_policy(policy: Seq<char>) -> bool {
    policy == "hangup"@ || policy == "continue"@ || policy == "fallback"@
}

/// A call after it was handed over, or the error for which it stays as it was.
pub open spec fn handed_over(call: CallText, args: HandoverArgs) -> Result<CallText, ErrorText> {
    if args.app@.len() == 0 {
        Err(value_error("call.handover() requires a non-empty app name"@))
    } else if args.on_lost matches Some(policy) && !is_loss_policy(policy@) {
        Err(
            value_error(
                "call.handover(on_lost=…) must be 'hangup', 'continue', or 'fallback' (got '"@
                    + args.on_lost->0@ + "')"@,
            ),
        )
    } else if !args.answer && (args.profile is Some || args.ws_uri is Some) {
        Err(
            value_error(
                "call.handover(profile=…/ws_uri=…) requires answer=True (they only apply to answer-first mode)"@,
            ),
        )
    } else {
        let action = ActionText::Handover {
            app: args.app@,
            on_lost: opt_text(args.on_lost),
            deadline_ms: args.deadline_ms,
            vars: pairs_text(args.vars@),
            answer: args.answer,
            profile: opt_text(args.profile),
            ws_uri: opt_text(args.ws_uri),
        };
        Ok(CallText { action, ..call })
    }
}

/// How a transfer is honored, by name.
pub open spec fn refer_mode_of(mode: Option<Seq<char>>) -> Result<Option<ReferMode>, ErrorText> {
    match mode {
        None => Ok(None),
        Some(name) => if name == "terminate"@ {
            Ok(Some(ReferMode::Terminate))
        } else if name == "transparent"@ {
            Ok(Some(ReferMode::Transparent))
        } else {
            Err(
                value_error(
                    "accept_refer(mode=…) must be 'terminate' or 'transparent', got "@
                        + debug_quoted(name),
                ),
            )
        },
    }
}

/// The body of a response: bytes, or text as its UTF-8 bytes.
pub open spec fn body_of(body: PyText) -> Result<Seq<u8>, ErrorText> {
    match body {
        PyText::Bytes(b) => Ok(b),
        PyText::Text(s) => Ok(encode_utf8(s)),
        _ => Err(type_error("body must be bytes or str"@)),
    }
}

/// The body of a response, where one is given.
pub open spec fn opt_body_of(body: Option<PyText>) -> Result<Option<Seq<u8>>, ErrorText> {
    match body {
        None => Ok(None),
        Some(body) => match body_of(body) {
            Ok(b) => Ok(Some(b)),
            Err(e) => Err(e),
        },
    }
}

/// The value of an optional reference.
pub open spec fn opt_py(v: Option<&PyValue>) -> Option<PyText> {
    match v {
        Some(value) => Some(value@),
        None => None,
    }
}

/// A response to the caller's INVITE that is to be sent at once.
#[derive(Debug, PartialEq)]
pub struct UasReply {
    pub call_id: String,
    pub code: u16,
    pub reason: String,
    pub body: Option<Vec<u8>>,
    pub content_type: Option<String>,
}

/// A response as mathematical data.
pub struct UasText {
    pub call_id: Seq<char>,
    pub code: u16,
    pub reason: Seq<char>,
    pub body: Option<Seq<u8>>,
    pub content_type: Option<Seq<char>>,
}

impl View for UasReply {
    type V = UasText;

    open spec fn view(&self) -> UasText {
        UasText {
            call_id: self.call_id@,
            code: self.code,
            reason: self.reason@,
            body: match self.body {
                Some(b) => Some(b@),
                None => None,
            },
            content_type: opt_text(self.content_type),
        }
    }
}

/// The response that is sent where the status is of the right class and the
/// body is one.
pub open spec fn uas_reply(
    call: CallText,
    code: u16,
    reason: Seq<char>,
    body: Option<PyText>,
    content_type: Option<Seq<char>>,
    low: u16,
    refusal: ErrorText,
) -> Result<UasText, ErrorText> {
    if code < low || code >= low + 100 {
        Err(refusal)
    } else {
        match opt_body_of(body) {
            Err(e) => Err(e),
            Ok(body) => Ok(UasText { call_id: call.id, code, reason, body, content_type }),
        }
    }
}

pub open spec fn answer_refusal(code: u16) -> ErrorText {
    value_error(
        "call.answer() requires a 2xx status code; use call.reject() for failure responses (got "@
            + decimal(code as nat) + ")"@,
    )
}

pub open spec fn progress_refusal(code: u16) -> ErrorText {
    value_error(
        "call.progress() requires a 1xx status code (got "@ + decimal(code as nat)
            + "); use call.answer() for the final response"@,
    )
}

fn read_body(body: Option<&PyValue>) -> (r: Result<Option<Vec<u8>>, ScriptError>)
    ensures
        match r {
            Ok(Some(b)) => opt_body_of(opt_py(body)) == Ok::<Option<Seq<u8>>, ErrorText>(Some(b@)),
            Ok(None) => opt_body_of(opt_py(body)) == Ok::<Option<Seq<u8>>, ErrorText>(None),
            Err(e) => opt_body_of(opt_py(body)) == Err::<Option<Seq<u8>>, ErrorText>(e@),
        },
{
    match body {
        None => Ok(None),
        Some(PyValue::Bytes(b)) => {
            let mut out: Vec<u8> = Vec::new();
            out.extend_from_slice(b.as_slice());
            assert(out@ =~= b@);
            Ok(Some(out))
        },
        Some(PyValue::Text(s)) => Ok(Some(s.as_str().as_bytes_vec())),
        Some(_) => Err(ScriptError::type_("body must be bytes or str".to_owned())),
    }
}

impl PyCall {
    fn note_policy(&mut self, args: PolicyArgs)
        ensures
            final(self)@ == policy_noted(old(self)@, args@),
    {
        let mut copy = args.copy;
        if args.auth_passthrough {
            self.auth_passthrough_flag = true;
            add_auth_passthrough_copies(&mut copy);
        }
        self.update_header_policy_input(args.header_policy, copy, args.strip, args.translate);
    }

    /// Records the policy arguments; without any nothing changes.
    fn update_header_policy_input(
        &mut self,
        header_policy: Option<String>,
        copy: Vec<String>,
        strip: Vec<String>,
        translate: Vec<(String, String)>,
    )
        ensures
            final(self)@ == (CallText {
                header_policy: after_policy(
                    old(self)@.header_policy,
                    opt_text(header_policy),
                    texts(copy@),
                    texts(strip@),
                    pairs_text(translate@),
                ),
                ..old(self)@
            }),
    {
        if header_policy.is_none() && copy.len() == 0 && strip.len() == 0 && translate.len() == 0 {
            return ;
        }
        self.header_policy_input = Some(
            HeaderPolicyInput {
                policy_name: header_policy,
                deltas_copy: copy,
                deltas_strip: strip,
                deltas_translate: translate,
            },
        );
    }

    /// Dials one target. `reshaped` is what the numbering engine made of the
    /// INVITE and the target under the policy that applies.
    pub fn dial(
        &mut self,
        target: DialTarget,
        args: PolicyArgs,
        runtime: &NumberRuntime,
        reshaped: Option<Reshaped>,
    ) -> (r: Result<(), ScriptError>)
        ensures
            match r {
                Ok(()) => dialed(old(self)@, target@, args@, runtime@, opt_reshaped(reshaped))
                    == Ok::<CallText, ErrorText>(final(self)@),
                Err(e) => dialed(old(self)@, target@, args@, runtime@, opt_reshaped(reshaped))
                    == Err::<CallText, ErrorText>(e@) && final(self)@ == old(self)@,
            },
    {
        match validate_send_socket(&target.send_socket) {
            Ok(()) => {},
            Err(e) => {
                return Err(e);
            },
        }
        let name = match &args.number_policy {
            Some(name) => Some(name.as_str()),
            None => None,
        };
        let policy = match resolve_dial_policy(runtime, name) {
            Ok(policy) => policy,
            Err(e) => {
                return Err(e);
            },
        };
        let uri = match (policy, reshaped) {
            (Some(policy), Some(r)) => apply_for_dial(&mut self.message, &policy, r, &target.uri),
            _ => target.uri,
        };
        self.action = CallAction::Dial {
            target: uri,
            next_hop: target.next_hop,
            flow: target.flow,
            route: target.route,
            send_socket: target.send_socket,
            timeout: target.timeout,
        };
        self.note_policy(args);
        Ok(())
    }

    /// Forks to several targets. Each branch keeps its own flow and route set.
    /// `reshaped` is what the numbering engine made of the INVITE and the
    /// targets under the policy that applies.
    pub fn fork(
        &mut self,
        targets: Vec<ForkTarget>,
        fork: ForkArgs,
        args: PolicyArgs,
        runtime: &NumberRuntime,
        reshaped: Option<Reshaped>,
    ) -> (r: Result<(), ScriptError>)
        ensures
            match r {
                Ok(()) => forked(
                    old(self)@,
                    targets@,
                    fork,
                    args@,
                    runtime@,
                    opt_reshaped(reshaped),
                ) == Ok::<CallText, ErrorText>(final(self)@),
                Err(e) => forked(
                    old(self)@,
                    targets@,
                    fork,
                    args@,
                    runtime@,
                    opt_reshaped(reshaped),
                ) == Err::<CallText, ErrorText>(e@) && final(self)@ == old(self)@,
            },
    {
        match validate_send_socket(&fork.send_socket) {
            Ok(()) => {},
            Err(e) => {
                return Err(e);
            },
        }
        let (mut uris, flows, paths) = match read_branches(&targets) {
            Ok(lists) => lists,
            Err(e) => {
                return Err(e);
            },
        };
        let name = match &args.number_policy {
            Some(name) => Some(name.as_str()),
            None => None,
        };
        let policy = match resolve_dial_policy(runtime, name) {
            Ok(policy) => policy,
            Err(e) => {
                return Err(e);
            },
        };
        match (policy, reshaped) {
            (Some(policy), Some(r)) => {
                apply_for_fork(&mut self.message, &policy, r, &mut uris);
            },
            _ => {},
        }
        if same_ignoring_case(&fork.strategy, "sequential") {
            assert(uris@.len() == texts(uris@).len());
            assert(paths@.len() == text_lists(paths@).len());
            let routes = make_branch_routes(&uris, &paths);
            self.action = CallAction::RouteSequence {
                routes,
                send_socket: fork.send_socket,
                default_timeout: fork.timeout,
            };
        } else {
            self.action = CallAction::Fork {
                targets: uris,
                flows,
                routes: paths,
                strategy: fork.strategy,
                send_socket: fork.send_socket,
                timeout: fork.timeout,
            };
        }
        self.note_policy(args);
        Ok(())
    }

    /// Gives the call carriers to try in turn.
    pub fn route(&mut self, routes: Vec<RouteArg>, timeout: u32, send_socket: Option<String>) -> (r:
        Result<(), ScriptError>)
        ensures
            match r {
                Ok(()) => routed(old(self)@, routes@, timeout, opt_text(send_socket)) == Ok::<
                    CallText,
                    ErrorText,
                >(final(self)@),
                Err(e) => routed(old(self)@, routes@, timeout, opt_text(send_socket)) == Err::<
                    CallText,
                    ErrorText,
                >(e@) && final(self)@ == old(self)@,
            },
    {
        match validate_send_socket(&send_socket) {
            Ok(()) => {},
            Err(e) => {
                return Err(e);
            },
        }
        let mut collected: Vec<Route> = Vec::new();
        let mut i: usize = 0;
        assert(routes_text(collected@) =~= Seq::<RouteText>::empty());
        while i < routes.len()
            invariant
                i <= routes@.len(),
                *self == *old(self),
                send_socket_fault(opt_text(send_socket)) is None,
                carriers_of(routes@.take(i as int)) == Ok::<Seq<RouteText>, ErrorText>(
                    routes_text(collected@),
                ),
            decreases routes@.len() - i,
        {
            assert(routes@.take(i + 1).drop_last() =~= routes@.take(i as int));
            let ghost before = collected@;
            match &routes[i] {
                RouteArg::Route(route) => {
                    collected.push(route.inner().copy());
                    assert(routes_text(collected@) =~= routes_text(before).push(route@));
                },
                RouteArg::Other => {
                    proof {
                        lemma_carriers_error(routes@, i + 1);
                    }
                    return Err(
                        ScriptError::type_(
                            "call.route() expects a list of Route objects from lcr.route(...)".to_owned(),
                        ),
                    );
                },
            }
            i += 1;
        }
        assert(routes@.take(routes@.len() as int) =~= routes@);
        if collected.len() == 0 {
            return Err(
                ScriptError::value("call.route() requires at least one route".to_owned()),
            );
        }
        self.action = CallAction::RouteSequence {
            routes: collected,
            send_socket,
            default_timeout: timeout,
        };
        Ok(())
    }

    /// Hands the call over to a control application.
    pub fn handover(&mut self, args: HandoverArgs) -> (r: Result<(), ScriptError>)
        ensures
            match r {
                Ok(()) => handed_over(old(self)@, args) == Ok::<CallText, ErrorText>(final(self)@),
                Err(e) => handed_over(old(self)@, args) == Err::<CallText, ErrorText>(e@)
                    && final(self)@ == old(self)@,
            },
    {
        if args.app.as_str().is_empty() {
            return Err(
                ScriptError::value("call.handover() requires a non-empty app name".to_owned()),
            );
        }
        if let Some(policy) = &args.on_lost {
            if !(same_text(policy, "hangup") || same_text(policy, "continue") || same_text(
                policy,
                "fallback",
            )) {
                return Err(
                    ScriptError::value(
                        "call.handover(on_lost=…) must be 'hangup', 'continue', or 'fallback' (got '".to_owned().concat(
                            policy,
                        ).concat("')"),
                    ),
                );
            }
        }
        if !args.answer && (args.profile.is_some() || args.ws_uri.is_some()) {
            return Err(
                ScriptError::value(
                    "call.handover(profile=…/ws_uri=…) requires answer=True (they only apply to answer-first mode)".to_owned(),
                ),
            );
        }
        self.action = CallAction::Handover {
            app: args.app,
            on_lost: args.on_lost,
            deadline_ms: args.deadline_ms,
            vars: args.vars,
            answer: args.answer,
            profile: args.profile,
            ws_uri: args.ws_uri,
        };
        Ok(())
    }

    /// Answers the call without a callee. What is returned is to be sent at
    /// once.
    pub fn answer(
        &mut self,
        code: u16,
        reason: &str,
        body: Option<&PyValue>,
        content_type: Option<&str>,
    ) -> (r: Result<UasReply, ScriptError>)
        ensures
            match r {
                Ok(reply) => uas_reply(
                    old(self)@,
                    code,
                    reason@,
                    opt_py(body),
                    opt_str(content_type),
                    200,
                    answer_refusal(code),
                ) == Ok::<UasText, ErrorText>(reply@) && final(self)@ == (CallText {
                    action: ActionText::Answered,
                    ..old(self)@
                }),
                Err(e) => uas_reply(
                    old(self)@,
                    code,
                    reason@,
                    opt_py(body),
                    opt_str(content_type),
                    200,
                    answer_refusal(code),
                ) == Err::<UasText, ErrorText>(e@) && final(self)@ == old(self)@,
            },
    {
        if code < 200 || code >= 300 {
            return Err(
                ScriptError::value(
                    "call.answer() requires a 2xx status code; use call.reject() for failure responses (got ".to_owned().concat(
                        &decimal_text(code as u64),
                    ).concat(")"),
                ),
            );
        }
        let body = match read_body(body) {
            Ok(body) => body,
            Err(e) => {
                return Err(e);
            },
        };
        self.action = CallAction::Answered;
        Ok(
            UasReply {
                call_id: self.id.clone(),
                code,
                reason: reason.to_owned(),
                body,
                content_type: own_opt(content_type),
            },
        )
    }

    /// Sends a provisional response without answering the call. What is
    /// returned is to be sent at once.
    pub fn progress(
        &self,
        code: u16,
        reason: &str,
        body: Option<&PyValue>,
        content_type: Option<&str>,
    ) -> (r: Result<UasReply, ScriptError>)
        ensures
            match r {
                Ok(reply) => uas_reply(
                    self@,
                    code,
                    reason@,
                    opt_py(body),
                    opt_str(content_type),
                    100,
                    progress_refusal(code),
                ) == Ok::<UasText, ErrorText>(reply@),
                Err(e) => uas_reply(
                    self@,
                    code,
                    reason@,
                    opt_py(body),
                    opt_str(content_type),
                    100,
                    progress_refusal(code),
                ) == Err::<UasText, ErrorText>(e@),
            },
    {
        if code < 100 || code >= 200 {
            return Err(
                ScriptError::value(
                    "call.progress() requires a 1xx status code (got ".to_owned().concat(
                        &decimal_text(code as u64),
                    ).concat("); use call.answer() for the final response"),
                ),
            );
        }
        let body = match read_body(body) {
            Ok(body) => body,
            Err(e) => {
                return Err(e);
            },
        };
        Ok(
            UasReply {
                call_id: self.id.clone(),
                code,
                reason: reason.to_owned(),
                body,
                content_type: own_opt(content_type),
            },
        )
    }

    /// Accepts a transfer that a party asked for.
    pub fn accept_refer(
        &mut self,
        target: Option<String>,
        next_hop: Option<String>,
        mode: Option<&str>,
        profile: Option<String>,
    ) -> (r: Result<(), ScriptError>)
        ensures
            match r {
                Ok(()) => refer_mode_of(opt_str(mode)) matches Ok(mode) && final(self)@
                    == (CallText {
                    action: (ActionText::AcceptRefer {
                        target: opt_text(target),
                        next_hop: opt_text(next_hop),
                        mode,
                        profile: opt_text(profile),
                    }),
                    ..old(self)@
                }),
                Err(e) => refer_mode_of(opt_str(mode)) == Err::<Option<ReferMode>, ErrorText>(e@)
                    && final(self)@ == old(self)@,
            },
    {
        let mode = match mode {
            None => None,
            Some(name) => if same_text(name, "terminate") {
                Some(ReferMode::Terminate)
            } else if same_text(name, "transparent") {
                Some(ReferMode::Transparent)
            } else {
                return Err(
                    ScriptError::value(
                        "accept_refer(mode=…) must be 'terminate' or 'transparent', got ".to_owned().concat(
                            &quote_debug(name),
                        ),
                    ),
                );
            },
        };
        self.action = CallAction::AcceptRefer { target, next_hop, mode, profile };
        Ok(())
    }

    /// Asks a connected party to call another target. With `replaces` it is an
    /// attended transfer.
    pub fn refer(&mut self, target: &str, replaces: Option<&Vec<(String, PyValue)>>) -> (r: Result<
        (),
        ScriptError,
    >)
        ensures
            match r {
                Ok(()) => opt_replaces_of(opt_entries(replaces)) matches Ok(replaces)
                    && final(self)@ == (CallText {
                    action: (ActionText::SendRefer { uri: target@, replaces }),
                    ..old(self)@
                }),
                Err(e) => opt_replaces_of(opt_entries(replaces)) == Err::<
                    Option<ReplacesText>,
                    ErrorText,
                >(e@) && final(self)@ == old(self)@,
            },
    {
        let parsed = match parse_replaces_dict(replaces) {
            Ok(parsed) => parsed,
            Err(e) => {
                return Err(e);
            },
        };
        self.action = CallAction::SendRefer {
            refer_to: ReferTo { uri: target.to_owned(), replaces: parsed },
        };
        Ok(())
    }
}

fn read_branches(targets: &Vec<ForkTarget>) -> (r: Result<
    (Vec<String>, Vec<Option<PyFlow>>, Vec<Vec<String>>),
    ScriptError,
>)
    ensures
        match r {
            Ok((uris, flows, paths)) => branches_of(targets@) matches Ok(branches) && texts(uris@)
                == branch_uris(branches) && flows_text(flows@) == branch_flows(branches)
                && text_lists(paths@) == branch_paths(branches),
            Err(e) => branches_of(targets@) == Err::<Seq<BranchText>, ErrorText>(e@),
        },
{
    let mut uris: Vec<String> = Vec::new();
    let mut flows: Vec<Option<PyFlow>> = Vec::new();
    let mut paths: Vec<Vec<String>> = Vec::new();
    let mut i: usize = 0;
    let ghost mut branches: Seq<BranchText> = Seq::empty();
    assert(texts(uris@) =~= branch_uris(branches));
    assert(flows_text(flows@) =~= branch_flows(branches));
    assert(text_lists(paths@) =~= branch_paths(branches));
    while i < targets.len()
        invariant
            i <= targets@.len(),
            branches_of(targets@.take(i as int)) == Ok::<Seq<BranchText>, ErrorText>(branches),
            texts(uris@) == branch_uris(branches),
            flows_text(flows@) == branch_flows(branches),
            text_lists(paths@) == branch_paths(branches),
        decreases targets@.len() - i,
    {
        assert(targets@.take(i + 1).drop_last() =~= targets@.take(i as int));
        let ghost uris_before = uris@;
        let ghost flows_before = flows@;
        let ghost paths_before = paths@;
        match &targets[i] {
            ForkTarget::Contact(contact) => {
                let (uri, flow, path) = contact.fork_target();
                uris.push(uri);
                flows.push(flow);
                paths.push(path);
            },
            ForkTarget::Value(value) => match value.as_text() {
                Ok(uri) => {
                    uris.push(uri);
                    flows.push(None);
                    let none: Vec<String> = Vec::new();
                    assert(texts(none@) =~= Seq::<Seq<char>>::empty());
                    paths.push(none);
                },
                Err(e) => {
                    proof {
                        lemma_branches_error(targets@, i + 1);
                    }
                    return Err(e);
                },
            },
        }
        proof {
            let branch = branch_of(targets@[i as int])->Ok_0;
            let next = branches.push(branch);
            assert(texts(uris@) =~= texts(uris_before).push(branch.uri));
            assert(texts(uris@) =~= branch_uris(next));
            assert(flows_text(flows@) =~= flows_text(flows_before).push(branch.flow));
            assert(flows_text(flows@) =~= branch_flows(next));
            assert(text_lists(paths@) =~= text_lists(paths_before).push(branch.path));
            assert(text_lists(paths@) =~= branch_paths(next));
            branches = next;
        }
        i += 1;
    }
    assert(targets@.take(targets@.len() as int) =~= targets@);
    Ok((uris, flows, paths))
}

proof fn lemma_branch_count(targets: Seq<ForkTarget>)
    requires
        branches_of(targets) is Ok,
    ensures
        branches_of(targets)->Ok_0.len() == targets.len(),
        forall|i: int|
            0 <= i < targets.len() ==> branch_of(#[trigger] targets[i]) == Ok::<BranchText, ErrorText>(
                branches_of(targets)->Ok_0[i],
            ),
    decreases targets.len(),
{
    if targets.len() > 0 {
        let init = targets.drop_last();
        lemma_branch_count(init);
        assert forall|i: int| 0 <= i < targets.len() implies branch_of(#[trigger] targets[i])
            == Ok::<BranchText, ErrorText>(branches_of(targets)->Ok_0[i]) by {
            if i < init.len() {
                assert(init[i] == targets[i]);
            }
        }
    }
}

/// The lists of a parallel fork run side by side: one URI, one flow and one
/// route set for each target, in the order of the targets, each taken from its
/// own target.
pub proof fn fork_lists_are_parallel(
    call: CallText,
    targets: Seq<ForkTarget>,
    fork: ForkArgs,
    args: PolicyArgsText,
    runtime: RuntimeText,
    reshaped: Option<ReshapedText>,
)
    requires
        forked(call, targets, fork, args, runtime, reshaped) is Ok,
        !same_name(fork.strategy@, "sequential"@),
    ensures
        ({
            let action = forked(call, targets, fork, args, runtime, reshaped)->Ok_0.action;
            &&& action matches ActionText::Fork { targets: uris, flows, routes, .. }
            &&& uris.len() == targets.len()
            &&& flows.len() == targets.len()
            &&& routes.len() == targets.len()
            &&& forall|i: int|
                0 <= i < targets.len() ==> (branch_of(#[trigger] targets[i]) matches Ok(branch)
                    && flows[i] == branch.flow && routes[i] == branch.path)
        }),
{
    lemma_branch_count(targets);
}

/// A sequential fork tries as many carriers as there are targets, each through
/// the route set of its own target.
pub proof fn sequential_fork_keeps_each_route_set(
    call: CallText,
    targets: Seq<ForkTarget>,
    fork: ForkArgs,
    args: PolicyArgsText,
    runtime: RuntimeText,
    reshaped: Option<ReshapedText>,
)
    requires
        forked(call, targets, fork, args, runtime, reshaped) is Ok,
        same_name(fork.strategy@, "sequential"@),
    ensures
        ({
            let action = forked(call, targets, fork, args, runtime, reshaped)->Ok_0.action;
            &&& action matches ActionText::RouteSequence { routes, .. }
            &&& routes.len() == targets.len()
            &&& forall|i: int|
                0 <= i < targets.len() ==> (branch_of(#[trigger] targets[i]) matches Ok(branch)
                    && (if branch.path.len() == 0 {
                    routes[i].next_hop is None && routes[i].headers.len() == 0
                } else {
                    routes[i].next_hop == Some(bare_uri(branch.path[0])) && routes[i].headers
                        == seq![("Route"@, joined(branch.path))]
                }))
        }),
{
    lemma_branch_count(targets);
}

/// Passing challenges through lists both headers, keeps what the script listed,
/// and adds nothing the second time.
pub proof fn auth_copies_are_complete(list: Seq<Seq<char>>)
    ensures
        listed(auth_copies(list), "Proxy-Authenticate"@),
        listed(auth_copies(list), "Proxy-Authorization"@),
        list.len() <= auth_copies(list).len() <= list.len() + 2,
        auth_copies(list).take(list.len() as int) == list,
        auth_copies(auth_copies(list)) == auth_copies(list),
{
    let one = with_listed(list, "Proxy-Authenticate"@);
    let two = auth_copies(list);
    lemma_listed(list, "Proxy-Authenticate"@, "Proxy-Authenticate"@);
    lemma_listed(one, "Proxy-Authorization"@, "Proxy-Authenticate"@);
    lemma_listed(one, "Proxy-Authorization"@, "Proxy-Authorization"@);
    assert(two.take(list.len() as int) =~= list);
}

proof fn lemma_listed(list: Seq<Seq<char>>, header: Seq<char>, other: Seq<char>)
    ensures
        listed(with_listed(list, header), header),
        listed(list, other) ==> listed(with_listed(list, header), other),
{
    let after = with_listed(list, header);
    if !listed(list, header) {
        assert(after[list.len() as int] == header);
    }
    if listed(list, other) {
        let i = choose|i: int| 0 <= i < list.len() && same_name(#[trigger] list[i], other);
        assert(after[i] == list[i]);
    }
}

/// A call that is dialed without policy arguments keeps its header policy.
pub proof fn plain_dial_keeps_header_policy(call: CallText, target: DialText, runtime: RuntimeText, reshaped: Option<ReshapedText>)
    requires
        dialed(call, target, no_policy_args(), runtime, reshaped) is Ok,
    ensures
        ({
            let after = dialed(call, target, no_policy_args(), runtime, reshaped)->Ok_0;
            after.header_policy == call.header_policy && after.auth_passthrough
                == call.auth_passthrough
        }),
{
}

} // verus!
