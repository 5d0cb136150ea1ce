//! Laws of the call object.

use crate::call::action::{
    flows_text, opt_flow, parse_replaces_dict, text_lists, BranchText, CallAction, FlowText,
    HeaderPolicyInput, ReferMode, Replaces,
};
use crate::call::routing::{
    branch_flows, branch_of, branch_paths, branch_route, branch_routes, branch_uris, branches_of,
    carriers_of, is_send_socket, DialTarget, ForkArgs, ForkTarget, HandoverArgs, PolicyArgs,
    RouteArg, UasReply,
};
use crate::call::PyCall;
use crate::digest::bare_uri;
use crate::error::{ErrorText, ScriptError};
use crate::lcr::routes_text;
use crate::numbers::{
    shaped_text, IdentityHeader, NumberFormat, NumberPolicy, NumberRuntime, Reshaped,
};
use crate::pyvalue::{entries_text, entry, PyText, PyValue};
use crate::sec_agree::joined;
use crate::sip::same_name;
use crate::text::{opt_str, opt_text, pairs_text, texts};
use vstd::prelude::*;
use vstd::string::*;
use vstd::utf8::encode_utf8;

verus! {

proof fn lemma_carriers_in_order(args: Seq<RouteArg>)
    ensures
        carriers_of(args) matches Ok(routes) ==> routes.len() == args.len() && forall|i: int|
            0 <= i < args.len() ==> (#[trigger] args[i] matches RouteArg::Route(route)
                && routes[i] == route@),
        carriers_of(args) is Ok <==> forall|i: int|
            0 <= i < args.len() ==> #[trigger] args[i] is Route,
    decreases args.len(),
{
    if args.len() > 0 {
        let before = args.drop_last();
        lemma_carriers_in_order(before);
        assert forall|i: int| 0 <= i < before.len() implies before[i] == #[trigger] args[i] by {}
        if carriers_of(args) is Ok {
            assert(args.last() == args[args.len() - 1]);
            assert forall|i: int| 0 <= i < args.len() implies (#[trigger] args[i] matches RouteArg::Route(
                route,
            ) && carriers_of(args)->Ok_0[i] == route@) by {
                if i < before.len() {
                    assert(before[i] == args[i]);
                }
            }
        } else {
            if forall|i: int| 0 <= i < args.len() ==> #[trigger] args[i] is Route {
                assert forall|i: int| 0 <= i < before.len() implies #[trigger] before[i] is Route by {
                    assert(args[i] is Route);
                }
                assert(args[args.len() - 1] is Route);
            }
        }
    }
}

/// A call that is routed over a list of carriers tries them as the list has
/// them: as many routes as were handed over, and the `i`-th is the `i`-th. It is
/// routed exactly when there is a carrier, each item is one, and the socket is
/// one.
pub proof fn carriers_are_tried_in_the_order_given(
    call: &mut PyCall,
    routes: Vec<RouteArg>,
    timeout: u32,
    send_socket: Option<String>,
    outcome: Result<(), ScriptError>,
    after: PyCall,
    action: CallAction,
)
    requires
        call_ensures(PyCall::route, (call, routes, timeout, send_socket), outcome),
    ensures
        outcome is Ok && after == *final(call) && call_ensures(PyCall::action, (&after,), &action)
            ==> ({
            &&& action matches CallAction::RouteSequence {
                routes: tried,
                send_socket: socket,
                default_timeout,
            }
            &&& tried@.len() == routes@.len()
            &&& tried@.len() > 0
            &&& forall|i: int|
                0 <= i < routes@.len() ==> (#[trigger] routes@[i] matches RouteArg::Route(route)
                    && tried@[i]@ == route@)
            &&& opt_text(socket) == opt_text(send_socket)
            &&& default_timeout == timeout
        }),
        outcome is Ok <==> (send_socket matches Some(socket) ==> is_send_socket(socket@))
            && routes@.len() > 0 && forall|i: int|
            0 <= i < routes@.len() ==> #[trigger] routes@[i] is Route,
        outcome is Err ==> final(call)@ == old(call)@,
{
    lemma_carriers_in_order(routes@);
    if outcome is Ok && after == *final(call) && call_ensures(PyCall::action, (&after,), &action) {
        let tried = action->RouteSequence_routes;
        assert(routes_text(tried@).len() == tried@.len());
        assert forall|i: int| 0 <= i < routes@.len() implies (#[trigger] routes@[i] matches RouteArg::Route(
            route,
        ) && tried@[i]@ == route@) by {
            assert(routes_text(tried@)[i] == tried@[i]@);
        }
    }
}

/// A call that is dialled goes where it was told to, each part of the target in
/// its own place, where nothing reshapes its number.
pub proof fn dialled_call_carries_its_target(
    call: &mut PyCall,
    target: DialTarget,
    args: PolicyArgs,
    runtime: NumberRuntime,
    outcome: Result<(), ScriptError>,
    after: PyCall,
    action: CallAction,
)
    requires
        call_ensures(PyCall::dial, (call, target, args, &runtime, None), outcome),
    ensures
        outcome is Ok && after == *final(call) && call_ensures(PyCall::action, (&after,), &action)
            ==> ({
            &&& action matches CallAction::Dial {
                target: uri,
                next_hop,
                flow,
                route,
                send_socket,
                timeout,
            }
            &&& uri@ == target.uri@
            &&& opt_text(next_hop) == opt_text(target.next_hop)
            &&& opt_flow(flow) == opt_flow(target.flow)
            &&& texts(route@) == texts(target.route@)
            &&& opt_text(send_socket) == opt_text(target.send_socket)
            &&& timeout == target.timeout
        }),
        outcome is Ok ==> final(call)@.message == old(call)@.message,
        outcome is Err ==> final(call)@ == old(call)@,
{
}

/// A number policy reshapes what is dialled: the target becomes the shape that
/// is listed for it in the policy's format, and the identities of the message
/// those that were computed; the request line stays.
pub proof fn dialled_number_is_reshaped(
    call: &mut PyCall,
    target: DialTarget,
    args: PolicyArgs,
    runtime: NumberRuntime,
    policy: NumberPolicy,
    format: NumberFormat,
    reshaped: Reshaped,
    after: PyCall,
    action: CallAction,
)
    requires
        args.number_policy is None,
        runtime.default_b2bua_policy == Some(policy),
        call_ensures(NumberPolicy::format_for, (&policy, IdentityHeader::RequestUri), format),
        reshaped.targets@.len() > 0,
        reshaped.targets@[0].target@ == target.uri@,
        reshaped.targets@[0].format == format,
        call_ensures(
            PyCall::dial,
            (call, target, args, &runtime, Some(reshaped)),
            Ok::<(), ScriptError>(()),
        ),
    ensures
        after == *final(call) && call_ensures(PyCall::action, (&after,), &action) ==> ({
            &&& action matches CallAction::Dial { target: uri, .. }
            &&& uri@ == reshaped.targets@[0].shaped@
        }),
        final(call)@.message.headers == reshaped.headers@,
        final(call)@.message.start == old(call)@.message.start,
        final(call)@.message.body == old(call)@.message.body,
{
    assert(shaped_text(reshaped.targets@)[0] == reshaped.targets@[0]@);
}

proof fn lemma_branches_in_order(targets: Seq<ForkTarget>)
    ensures
        branches_of(targets) matches Ok(branches) ==> branches.len() == targets.len() && forall|i: int|
            0 <= i < targets.len() ==> branch_of(#[trigger] targets[i]) == Ok::<
                BranchText,
                ErrorText,
            >(branches[i]),
    decreases targets.len(),
{
    if targets.len() > 0 {
        let before = targets.drop_last();
        lemma_branches_in_order(before);
        if branches_of(targets) is Ok {
            let branches = branches_of(targets)->Ok_0;
            assert forall|i: int| 0 <= i < targets.len() implies branch_of(#[trigger] targets[i])
                == Ok::<BranchText, ErrorText>(branches[i]) by {
                if i < before.len() {
                    assert(before[i] == targets[i]);
                }
            }
        }
    }
}

/// Whether a branch of a fork leads where its target says: a contact's own
/// address, its flow where it was registered here, and its path; or a plain
/// address.
pub open spec fn leads_to(
    target: ForkTarget,
    uri: Seq<char>,
    flow: Option<FlowText>,
    path: Seq<Seq<char>>,
) -> bool {
    match target {
        ForkTarget::Contact(contact) => {
            &&& uri == contact.uri@
            &&& flow == if contact.is_local {
                opt_flow(contact.flow)
            } else {
                None
            }
            &&& path == texts(contact.path@)
        },
        ForkTarget::Value(value) => {
            &&& value@ == PyText::Text(uri)
            &&& flow is None
            &&& path.len() == 0
        },
    }
}

/// A call that is forked to several targets at once has one branch for each, in
/// their order, with each target's own address, flow and path, where nothing
/// reshapes the numbers.
pub proof fn forked_call_has_a_branch_for_each_target(
    call: &mut PyCall,
    targets: Vec<ForkTarget>,
    fork: ForkArgs,
    args: PolicyArgs,
    runtime: NumberRuntime,
    outcome: Result<(), ScriptError>,
    after: PyCall,
    action: CallAction,
)
    requires
        !same_name(fork.strategy@, "sequential"@),
        call_ensures(PyCall::fork, (call, targets, fork, args, &runtime, None), outcome),
    ensures
        outcome is Ok && after == *final(call) && call_ensures(PyCall::action, (&after,), &action)
            ==> ({
            &&& action matches CallAction::Fork {
                targets: uris,
                flows,
                routes,
                strategy,
                send_socket,
                timeout,
            }
            &&& uris@.len() == targets@.len()
            &&& flows@.len() == targets@.len()
            &&& routes@.len() == targets@.len()
            &&& forall|i: int|
                0 <= i < targets@.len() ==> leads_to(
                    #[trigger] targets@[i],
                    uris@[i]@,
                    opt_flow(flows@[i]),
                    texts(routes@[i]@),
                )
            &&& strategy@ == fork.strategy@
            &&& opt_text(send_socket) == opt_text(fork.send_socket)
            &&& timeout == fork.timeout
        }),
        outcome is Err ==> final(call)@ == old(call)@,
{
    lemma_branches_in_order(targets@);
    if outcome is Ok && after == *final(call) && call_ensures(PyCall::action, (&after,), &action) {
        let branches = branches_of(targets@)->Ok_0;
        let uris = action->Fork_targets;
        let flows = action->Fork_flows;
        let routes = action->Fork_routes;
        assert(texts(uris@) == branch_uris(branches));
        assert(flows_text(flows@) == branch_flows(branches));
        assert(text_lists(routes@) == branch_paths(branches));
        assert(texts(uris@).len() == uris@.len());
        assert(flows_text(flows@).len() == flows@.len());
        assert(text_lists(routes@).len() == routes@.len());
        assert forall|i: int| 0 <= i < targets@.len() implies leads_to(
            #[trigger] targets@[i],
            uris@[i]@,
            opt_flow(flows@[i]),
            texts(routes@[i]@),
        ) by {
            assert(texts(uris@)[i] == uris@[i]@);
            assert(flows_text(flows@)[i] == opt_flow(flows@[i]));
            assert(text_lists(routes@)[i] == texts(routes@[i]@));
            assert(branch_of(targets@[i]) == Ok::<BranchText, ErrorText>(branches[i]));
        }
    }
}

/// A call that is forked to its targets one after another tries them in their
/// order, each through the first hop of its own path.
pub proof fn sequential_fork_tries_the_targets_in_order(
    call: &mut PyCall,
    targets: Vec<ForkTarget>,
    fork: ForkArgs,
    args: PolicyArgs,
    runtime: NumberRuntime,
    outcome: Result<(), ScriptError>,
    after: PyCall,
    action: CallAction,
)
    requires
        same_name(fork.strategy@, "sequential"@),
        call_ensures(PyCall::fork, (call, targets, fork, args, &runtime, None), outcome),
    ensures
        outcome is Ok && after == *final(call) && call_ensures(PyCall::action, (&after,), &action)
            ==> ({
            &&& action matches CallAction::RouteSequence { routes, send_socket, default_timeout }
            &&& routes@.len() == targets@.len()
            &&& forall|i: int|
                0 <= i < targets@.len() ==> (match #[trigger] targets@[i] {
                    ForkTarget::Contact(contact) => {
                        &&& opt_text(routes@[i].ruri) == Some(contact.uri@)
                        &&& contact.path@.len() == 0 ==> routes@[i].next_hop is None
                            && routes@[i].headers@.len() == 0
                        &&& contact.path@.len() > 0 ==> opt_text(routes@[i].next_hop) == Some(
                            bare_uri(contact.path@[0]@),
                        ) && routes@[i].headers@.len() == 1 && routes@[i].headers@[0].0@
                            == "Route"@ && routes@[i].headers@[0].1@ == joined(
                            texts(contact.path@),
                        )
                    },
                    ForkTarget::Value(value) => {
                        &&& routes@[i].ruri is Some
                        &&& value@ == PyText::Text(routes@[i].ruri->0@)
                        &&& routes@[i].next_hop is None
                        &&& routes@[i].headers@.len() == 0
                    },
                })
            &&& opt_text(send_socket) == opt_text(fork.send_socket)
            &&& default_timeout == fork.timeout
        }),
        outcome is Err ==> final(call)@ == old(call)@,
{
    lemma_branches_in_order(targets@);
    if outcome is Ok && after == *final(call) && call_ensures(PyCall::action, (&after,), &action) {
        let branches = branches_of(targets@)->Ok_0;
        let routes = action->RouteSequence_routes;
        assert(routes_text(routes@) == branch_routes(
            branch_uris(branches),
            branch_paths(branches),
        ));
        assert(routes_text(routes@).len() == routes@.len());
        assert forall|i: int| 0 <= i < targets@.len() implies (match #[trigger] targets@[i] {
            ForkTarget::Contact(contact) => {
                &&& opt_text(routes@[i].ruri) == Some(contact.uri@)
                &&& contact.path@.len() == 0 ==> routes@[i].next_hop is None
                    && routes@[i].headers@.len() == 0
                &&& contact.path@.len() > 0 ==> opt_text(routes@[i].next_hop) == Some(
                    bare_uri(contact.path@[0]@),
                ) && routes@[i].headers@.len() == 1 && routes@[i].headers@[0].0@ == "Route"@
                    && routes@[i].headers@[0].1@ == joined(texts(contact.path@))
            },
            ForkTarget::Value(value) => {
                &&& routes@[i].ruri is Some
                &&& value@ == PyText::Text(routes@[i].ruri->0@)
                &&& routes@[i].next_hop is None
                &&& routes@[i].headers@.len() == 0
            },
        }) by {
            assert(routes_text(routes@)[i] == routes@[i]@);
            assert(branch_of(targets@[i]) == Ok::<BranchText, ErrorText>(branches[i]));
            let route = branch_route(branches[i].uri, branches[i].path);
            assert(routes@[i]@ == route);
            assert(pairs_text(routes@[i].headers@) == route.headers);
            assert(pairs_text(routes@[i].headers@).len() == routes@[i].headers@.len());
            if route.headers.len() > 0 {
                assert(pairs_text(routes@[i].headers@)[0] == (
                    routes@[i].headers@[0].0@,
                    routes@[i].headers@[0].1@,
                ));
            }
        }
    }
}

/// What a script adds to the header policy of a call is noted as it was given:
/// what to copy, what to strip and what to rename, each in its own list.
pub proof fn header_policy_is_noted_as_given(
    call: &mut PyCall,
    target: DialTarget,
    args: PolicyArgs,
    runtime: NumberRuntime,
    after: PyCall,
    input: HeaderPolicyInput,
    passthrough: bool,
)
    requires
        args.header_policy is Some || args.copy@.len() > 0 || args.strip@.len() > 0
            || args.translate@.len() > 0,
        call_ensures(PyCall::dial, (call, target, args, &runtime, None), Ok::<(), ScriptError>(())),
    ensures
        after == *final(call) && call_ensures(
            PyCall::header_policy_input,
            (&after,),
            Some(&input),
        ) ==> ({
            &&& opt_text(input.policy_name) == opt_text(args.header_policy)
            &&& !args.auth_passthrough ==> texts(input.deltas_copy@) == texts(args.copy@)
            &&& args.auth_passthrough ==> texts(input.deltas_copy@).len() >= args.copy@.len()
                && forall|i: int|
                0 <= i < args.copy@.len() ==> texts(input.deltas_copy@)[i] == #[trigger] args.copy@[i]@
            &&& texts(input.deltas_strip@) == texts(args.strip@)
            &&& pairs_text(input.deltas_translate@) == pairs_text(args.translate@)
        }),
        after == *final(call) && call_ensures(PyCall::header_policy_input, (&after,), None) ==> false,
        after == *final(call) && call_ensures(PyCall::auth_passthrough, (&after,), passthrough)
            ==> passthrough == (old(call)@.auth_passthrough || args.auth_passthrough),
{
    assert(texts(args.copy@).len() == args.copy@.len());
    assert(texts(args.strip@).len() == args.strip@.len());
    assert(pairs_text(args.translate@).len() == args.translate@.len());
}

/// A call that is handed over goes to the application that was named, with each
/// setting in its own place.
pub proof fn handover_carries_its_settings(
    call: &mut PyCall,
    args: HandoverArgs,
    outcome: Result<(), ScriptError>,
    after: PyCall,
    action: CallAction,
)
    requires
        call_ensures(PyCall::handover, (call, args), outcome),
    ensures
        outcome is Ok && after == *final(call) && call_ensures(PyCall::action, (&after,), &action)
            ==> ({
            &&& action matches CallAction::Handover {
                app,
                on_lost,
                deadline_ms,
                vars,
                answer,
                profile,
                ws_uri,
            }
            &&& app@ == args.app@
            &&& opt_text(on_lost) == opt_text(args.on_lost)
            &&& deadline_ms == args.deadline_ms
            &&& pairs_text(vars@) == pairs_text(args.vars@)
            &&& answer == args.answer
            &&& opt_text(profile) == opt_text(args.profile)
            &&& opt_text(ws_uri) == opt_text(args.ws_uri)
        }),
        outcome is Ok <==> {
            &&& args.app@.len() > 0
            &&& args.on_lost matches Some(policy) ==> policy@ == "hangup"@ || policy@ == "continue"@
                || policy@ == "fallback"@
            &&& args.profile is Some || args.ws_uri is Some ==> args.answer
        },
        outcome is Err ==> final(call)@ == old(call)@,
{
}

/// A REFER that is accepted is followed as it was told: each setting in its own
/// place, and the mode by its name.
pub proof fn accepted_refer_carries_its_settings(
    call: &mut PyCall,
    target: Option<String>,
    next_hop: Option<String>,
    mode: Option<&str>,
    profile: Option<String>,
    outcome: Result<(), ScriptError>,
    after: PyCall,
    action: CallAction,
)
    requires
        call_ensures(PyCall::accept_refer, (call, target, next_hop, mode, profile), outcome),
    ensures
        outcome is Ok && after == *final(call) && call_ensures(PyCall::action, (&after,), &action)
            ==> ({
            &&& action matches CallAction::AcceptRefer {
                target: to,
                next_hop: hop,
                mode: how,
                profile: media,
            }
            &&& opt_text(to) == opt_text(target)
            &&& opt_text(hop) == opt_text(next_hop)
            &&& opt_text(media) == opt_text(profile)
            &&& opt_str(mode) == match how {
                Some(ReferMode::Terminate) => Some("terminate"@),
                Some(ReferMode::Transparent) => Some("transparent"@),
                None => None,
            }
        }),
        outcome is Ok <==> opt_str(mode) is None || opt_str(mode) == Some("terminate"@) || opt_str(
            mode,
        ) == Some("transparent"@),
        outcome is Err ==> final(call)@ == old(call)@,
{
}

/// Whether a `Replaces` holds what a script's dict says, each part under its own
/// key; a dialog is replaced in any state unless the dict says otherwise.
pub open spec fn replaces_as_written(d: Seq<(Seq<char>, PyText)>, replaces: Replaces) -> bool {
    &&& entry(d, "call_id"@) == Some(PyText::Text(replaces.call_id@))
    &&& entry(d, "from_tag"@) == Some(PyText::Text(replaces.from_tag@))
    &&& entry(d, "to_tag"@) == Some(PyText::Text(replaces.to_tag@))
    &&& match entry(d, "early_only"@) {
        Some(value) => value == PyText::Bool(replaces.early_only),
        None => !replaces.early_only,
    }
}

/// A dict that names a dialog to replace is read key by key.
pub proof fn replaces_dict_is_read_by_its_keys(
    dict: Vec<(String, PyValue)>,
    replaces: Option<Replaces>,
)
    requires
        call_ensures(parse_replaces_dict, (Some(&dict),), Ok(replaces)),
    ensures
        replaces matches Some(found) && replaces_as_written(entries_text(dict@), found),
{
}

/// A REFER that is sent names the target that was given and the dialog that the
/// dict describes.
pub proof fn sent_refer_carries_its_target(
    call: &mut PyCall,
    target: &str,
    replaces: Option<&Vec<(String, PyValue)>>,
    outcome: Result<(), ScriptError>,
    after: PyCall,
    action: CallAction,
)
    requires
        call_ensures(PyCall::refer, (call, target, replaces), outcome),
    ensures
        outcome is Ok && after == *final(call) && call_ensures(PyCall::action, (&after,), &action)
            ==> ({
            &&& action matches CallAction::SendRefer { refer_to }
            &&& refer_to.uri@ == target@
            &&& match replaces {
                Some(dict) => refer_to.replaces matches Some(found) && replaces_as_written(
                    entries_text(dict@),
                    found,
                ),
                None => refer_to.replaces is None,
            }
        }),
        outcome is Err ==> final(call)@ == old(call)@,
{
}

/// A final answer is sent under the call's own identifier with the code, the
/// reason, the body and the type that were given; the code is in its two
/// hundreds, and the call counts as answered.
pub proof fn answer_carries_what_was_given(
    call: &mut PyCall,
    code: u16,
    reason: &str,
    body: Option<&PyValue>,
    content_type: Option<&str>,
    outcome: Result<UasReply, ScriptError>,
    after: PyCall,
    action: CallAction,
)
    requires
        call_ensures(PyCall::answer, (call, code, reason, body, content_type), outcome),
    ensures
        outcome matches Ok(reply) ==> ({
            &&& reply.call_id@ == old(call)@.id
            &&& reply.code == code
            &&& 200 <= code < 300
            &&& reply.reason@ == reason@
            &&& opt_text(reply.content_type) == opt_str(content_type)
            &&& body_as_given(body, reply.body)
        }),
        outcome is Ok && after == *final(call) && call_ensures(PyCall::action, (&after,), &action)
            ==> action is Answered,
        outcome is Err ==> final(call)@ == old(call)@,
        outcome is Err <==> code < 200 || code >= 300 || (body matches Some(value)
            && !(value@ is Bytes || value@ is Text)),
{
}

/// Whether the octets of a reply are those that a script gave: bytes as they
/// are, text as UTF-8.
pub open spec fn body_as_given(given: Option<&PyValue>, body: Option<Vec<u8>>) -> bool {
    match given {
        Some(value) => body matches Some(octets) && match value@ {
            PyText::Bytes(b) => octets@ == b,
            PyText::Text(s) => octets@ == encode_utf8(s),
            _ => false,
        },
        None => body is None,
    }
}

/// A provisional answer is sent under the call's own identifier with the code,
/// the reason, the body and the type that were given; the code is in its one
/// hundreds.
pub proof fn progress_carries_what_was_given(
    call: PyCall,
    code: u16,
    reason: &str,
    body: Option<&PyValue>,
    content_type: Option<&str>,
    outcome: Result<UasReply, ScriptError>,
)
    requires
        call_ensures(PyCall::progress, (&call, code, reason, body, content_type), outcome),
    ensures
        outcome matches Ok(reply) ==> ({
            &&& reply.call_id@ == call@.id
            &&& reply.code == code
            &&& 100 <= code < 200
            &&& reply.reason@ == reason@
            &&& opt_text(reply.content_type) == opt_str(content_type)
            &&& body_as_given(body, reply.body)
        }),
        outcome is Err <==> code < 100 || code >= 200 || (body matches Some(value)
            && !(value@ is Bytes || value@ is Text)),
{
}

} // verus!
