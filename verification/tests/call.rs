//! Calls: what scripts read of them and decide about them.

use std::collections::hash_map::DefaultHasher;
use std::hash::{Hash, Hasher};

use siphon::call::action::{
    parse_replaces_dict, CallAction, PyByeInitiator, PyContact, PyFlow, PyMediaHandle, ReferMode,
    Replaces, RoOutcome, RouteAttempt,
};
use siphon::call::routing::{
    validate_send_socket, DialTarget, ForkArgs, ForkTarget, HandoverArgs, PolicyArgs, RouteArg,
};
use siphon::call::PyCall;
use siphon::error::ErrorKind;
use siphon::gateway::{Algorithm, Destination, DispatcherGroup, PyGateway};
use siphon::ipsec::Transport;
use siphon::lcr::{
    decision_of, LcrOutcome, LcrReject, LcrResponse, PyLcr, PyLcrDecision, PyRoute, Route,
};
use siphon::net::SocketAddr;
use siphon::numbers::{NumberRuntime, Reshaped};
use siphon::pyvalue::PyValue;
use siphon::sip::{Header, Headers, NameAddr, SipMessage, SipUri, StartLine};

fn uri(user: &str, host: &str) -> SipUri {
    SipUri::new(host.to_string()).with_user(user.to_string())
}

fn address(display: Option<&str>, uri: SipUri, tag: Option<&str>) -> NameAddr {
    NameAddr {
        display_name: display.map(str::to_string),
        uri,
        tag: tag.map(str::to_string),
        params: String::new(),
    }
}

fn make_invite() -> SipMessage {
    let mut headers = Headers::new();
    headers.append(Header::plain("Via", "SIP/2.0/UDP 10.0.0.1:5060;branch=z9hG4bK-test"));
    headers.append(Header::of_address(
        "From",
        address(None, uri("alice", "atlanta.com"), Some("abc")),
    ));
    headers.append(Header::of_address("To", address(None, uri("bob", "example.com"), None)));
    headers.append(Header::plain("Call-ID", "call-test-1"));
    headers.append(Header::plain("CSeq", "1 INVITE"));
    headers.append(Header::plain("Content-Length", "0"));
    SipMessage {
        start_line: StartLine::Request {
            method: "INVITE".to_string(),
            request_uri: uri("bob", "example.com"),
        },
        headers,
        body: Vec::new(),
    }
}

fn make_call(source_ip: &str, transport: &str) -> PyCall {
    PyCall::new(
        "test-id".to_string(),
        make_invite(),
        source_ip.to_string(),
        transport.to_string(),
    )
}

fn test_call() -> PyCall {
    make_call("10.0.0.1", "udp")
}

fn call_with(name: &str, addr: NameAddr) -> PyCall {
    let mut invite = make_invite();
    invite.headers.set(Header::of_address(name, addr));
    PyCall::new(
        "test-id".to_string(),
        invite,
        "10.0.0.1".to_string(),
        "udp".to_string(),
    )
}

fn test_flow(transport: &str, source: &str, local: &str, connection_id: u64) -> PyFlow {
    PyFlow {
        transport: transport.to_string(),
        source_addr: SocketAddr::parse(source).expect("test source addr"),
        local_addr: SocketAddr::parse(local).expect("test local addr"),
        connection_id,
    }
}

fn call_on(flow: Option<PyFlow>) -> PyCall {
    make_call("192.0.2.10", "tls").with_flow(flow)
}

fn registered_flow() -> PyFlow {
    test_flow("tls", "192.0.2.10:41234", "198.51.100.1:5061", 0xc0ffee)
}

fn texts(v: &[&str]) -> Vec<String> {
    v.iter().map(|s| s.to_string()).collect()
}

fn blank() -> NumberRuntime {
    NumberRuntime::blank()
}

fn policy(header_policy: Option<&str>, copy: &[&str], strip: &[&str]) -> PolicyArgs {
    PolicyArgs {
        header_policy: header_policy.map(str::to_string),
        copy: texts(copy),
        strip: texts(strip),
        ..PolicyArgs::none()
    }
}

fn passthrough(copy: &[&str]) -> PolicyArgs {
    PolicyArgs {
        copy: texts(copy),
        auth_passthrough: true,
        ..PolicyArgs::none()
    }
}

fn fork_args(strategy: &str) -> ForkArgs {
    ForkArgs {
        strategy: strategy.to_string(),
        timeout: 30,
        send_socket: None,
    }
}

fn text_target(uri: &str) -> ForkTarget {
    ForkTarget::Value(PyValue::Text(uri.to_string()))
}

fn binding_with_path(uri: &str, path: &[&str]) -> PyContact {
    PyContact {
        uri: uri.to_string(),
        flow: None,
        is_local: false,
        path: texts(path),
    }
}

fn handover_args(app: &str) -> HandoverArgs {
    HandoverArgs {
        app: app.to_string(),
        on_lost: None,
        deadline_ms: None,
        vars: Vec::new(),
        answer: false,
        profile: None,
        ws_uri: None,
    }
}

fn parsed(user: &str, host: &str) -> Result<SipUri, String> {
    Ok(uri(user, host))
}

// --- flows ---

#[test]
fn call_flow_is_none_when_no_transport_binding_was_captured() {
    assert!(call_on(None).flow().is_none());
}

#[test]
fn call_flow_exposes_the_captured_inbound_flow() {
    let call = call_on(Some(registered_flow()));
    let exposed = call.flow().expect("flow present");
    assert_eq!(exposed.transport(), "tls");
    assert_eq!(exposed.remote_addr(), "192.0.2.10:41234");
    assert_eq!(exposed.local_addr(), "198.51.100.1:5061");
    assert_eq!(exposed.connection_id(), 0xc0ffee);
}

#[test]
fn a_call_on_the_registered_connection_matches_that_binding_flow() {
    let call = call_on(Some(registered_flow()));
    assert_eq!(call.flow(), Some(registered_flow()));
    assert!(call.flow().unwrap().same_flow(&registered_flow()));
}

#[test]
fn a_call_from_the_same_address_on_a_new_connection_does_not_match() {
    let reconnected = test_flow("tls", "192.0.2.10:41234", "198.51.100.1:5061", 0xbeef);
    let call = call_on(Some(reconnected));
    assert_ne!(call.flow(), Some(registered_flow()));
    assert!(!call.flow().unwrap().same_flow(&registered_flow()));
}

#[test]
fn a_call_on_a_different_transport_does_not_match() {
    let over_tcp = test_flow("tcp", "192.0.2.10:41234", "198.51.100.1:5061", 0xc0ffee);
    let call = call_on(Some(over_tcp));
    assert_ne!(call.flow(), Some(registered_flow()));
    assert!(!call.flow().unwrap().same_flow(&registered_flow()));
}

#[test]
fn the_match_survives_the_ue_reusing_the_connection_across_calls() {
    for _ in 0..3 {
        assert_eq!(call_on(Some(registered_flow())).flow(), Some(registered_flow()));
    }
}

#[test]
fn call_flow_is_comparable_and_hashable_from_python() {
    let hash = |flow: &PyFlow| {
        let mut hasher = DefaultHasher::new();
        flow.hash(&mut hasher);
        hasher.finish()
    };
    let other = test_flow("tls", "192.0.2.10:41234", "198.51.100.1:5061", 0xbeef);
    assert!(registered_flow() == registered_flow());
    assert!(registered_flow() != other);
    assert_eq!(hash(&registered_flow()), hash(&registered_flow()));
}

#[test]
fn an_ipv6_flow_shows_its_address_in_brackets() {
    let flow = test_flow("tcp", "[2001:db8::5]:5060", "[2001:db8::1]:5061", 7);
    assert_eq!(flow.remote_addr(), "[2001:db8::5]:5060");
    assert!(SocketAddr::parse("2001:db8::5:5060").is_none());
    assert!(SocketAddr::parse("10.0.0.1:99999").is_none());
    assert!(SocketAddr::parse("10.0.0.1:+5060").is_none());
    assert!(SocketAddr::parse("10.0.0.1").is_none());
}

// --- state and identity ---

#[test]
fn call_initial_state() {
    let call = test_call();
    assert_eq!(call.id(), "test-id");
    assert_eq!(call.state(), "calling");
    assert_eq!(call.action(), &CallAction::NoAction);
}

#[test]
fn call_auth_user_starts_unset_and_records_the_verified_username() {
    let mut call = test_call();
    assert_eq!(call.get_auth_user(), None);
    assert_eq!(call.auth_user(), None);
    call.set_auth_user("alice".to_string());
    assert_eq!(call.get_auth_user(), Some("alice"));
    assert_eq!(call.auth_user(), Some("alice"));
}

#[test]
fn call_auth_user_can_be_overwritten_and_cleared_from_a_script() {
    let mut call = test_call();
    call.set_auth_user("qualifier:alice".to_string());
    call.py_set_auth_user(Some("alice".to_string()));
    assert_eq!(call.auth_user(), Some("alice"));
    assert_eq!(call.get_auth_user(), Some("alice"));
    call.py_set_auth_user(None);
    assert_eq!(call.auth_user(), None);
    assert_eq!(call.get_auth_user(), None);
}

#[test]
fn call_auth_user_is_writable_from_python_not_just_from_rust() {
    let mut call = test_call();
    call.set_auth_user("qualifier:alice".to_string());
    call.py_set_auth_user(Some("alice".to_string()));
    assert_eq!(call.auth_user(), Some("alice"));
    assert_eq!(call.get_auth_user(), Some("alice"));
}

#[test]
fn call_exposes_source_ip_and_transport_to_rust_callers() {
    let call = make_call("203.0.113.9", "tls");
    assert_eq!(call.source_ip_str(), "203.0.113.9");
    assert_eq!(call.transport_str(), "tls");
}

#[test]
fn call_state_transition() {
    let mut call = test_call();
    assert_eq!(call.state(), "calling");
    call.set_state("ringing");
    assert_eq!(call.state(), "ringing");
    call.set_state("answered");
    assert_eq!(call.state(), "answered");
}

// --- reject, handover, answer ---

#[test]
fn call_reject() {
    let mut call = test_call();
    call.reject(404, "Not Found");
    assert_eq!(
        call.action(),
        &CallAction::Reject { code: 404, reason: "Not Found".to_string() }
    );
}

#[test]
fn call_set_reject_sets_reject_action() {
    let mut call = test_call();
    call.set_reject(488, "Not Acceptable Here");
    assert_eq!(
        call.action(),
        &CallAction::Reject { code: 488, reason: "Not Acceptable Here".to_string() }
    );
}

#[test]
fn call_handover_sets_handover_action() {
    let mut call = test_call();
    let vars = vec![("queue".to_string(), "support".to_string())];
    call.handover(HandoverArgs {
        on_lost: Some("hangup".to_string()),
        deadline_ms: Some(3000),
        vars: vars.clone(),
        ..handover_args("ivr-app")
    })
    .unwrap();
    assert_eq!(
        call.action(),
        &CallAction::Handover {
            app: "ivr-app".to_string(),
            on_lost: Some("hangup".to_string()),
            deadline_ms: Some(3000),
            vars,
            answer: false,
            profile: None,
            ws_uri: None,
        }
    );
}

#[test]
fn call_handover_answer_mode_sets_flag_and_media_args() {
    let mut call = test_call();
    call.handover(HandoverArgs {
        answer: true,
        profile: Some("voice_ai".to_string()),
        ws_uri: Some("wss://ai/{call_id}".to_string()),
        ..handover_args("ai-app")
    })
    .unwrap();
    assert!(matches!(
        call.action(),
        CallAction::Handover {
            answer: true,
            profile: Some(ref p),
            ws_uri: Some(ref u),
            ..
        } if p == "voice_ai" && u == "wss://ai/{call_id}"
    ));
}

#[test]
fn call_handover_media_args_require_answer_true() {
    let mut call = test_call();
    assert!(call
        .handover(HandoverArgs { profile: Some("voice_ai".to_string()), ..handover_args("app") })
        .is_err());
    assert!(call
        .handover(HandoverArgs { ws_uri: Some("wss://ai".to_string()), ..handover_args("app") })
        .is_err());
}

#[test]
fn call_handover_rejects_empty_app_and_bad_on_lost() {
    let mut call = test_call();
    assert!(call.handover(handover_args("")).is_err());
    let error = call
        .handover(HandoverArgs { on_lost: Some("explode".to_string()), ..handover_args("app") })
        .unwrap_err();
    assert_eq!(
        error.display(),
        "ValueError: call.handover(on_lost=…) must be 'hangup', 'continue', or 'fallback' (got 'explode')"
    );
    assert_eq!(call.action(), &CallAction::NoAction);
    assert!(call
        .handover(HandoverArgs { on_lost: Some("continue".to_string()), ..handover_args("app") })
        .is_ok());
    assert!(call
        .handover(HandoverArgs { on_lost: Some("fallback".to_string()), ..handover_args("app") })
        .is_ok());
}

#[test]
fn an_answer_takes_a_2xx_status_and_marks_the_call() {
    let mut call = test_call();
    let refused = call.answer(486, "Busy", None, None).unwrap_err();
    assert_eq!(
        refused.message,
        "call.answer() requires a 2xx status code; use call.reject() for failure responses (got 486)"
    );
    assert_eq!(call.action(), &CallAction::NoAction);
    let bad_body = call.answer(200, "OK", Some(&PyValue::Int(3)), None).unwrap_err();
    assert_eq!(bad_body.kind, ErrorKind::Type);
    let body = PyValue::Text("v=0\u{e9}".to_string());
    let reply = call.answer(200, "OK", Some(&body), Some("application/sdp")).unwrap();
    assert_eq!(reply.call_id, "test-id");
    assert_eq!(reply.code, 200);
    assert_eq!(reply.body, Some("v=0\u{e9}".as_bytes().to_vec()));
    assert_eq!(reply.content_type.as_deref(), Some("application/sdp"));
    assert_eq!(call.action(), &CallAction::Answered);
}

#[test]
fn a_provisional_response_takes_a_1xx_status_and_decides_nothing() {
    let call = test_call();
    assert!(call.progress(200, "OK", None, None).is_err());
    assert!(call.progress(99, "?", None, None).is_err());
    let body = PyValue::Bytes(vec![1, 2]);
    let reply = call.progress(183, "Session Progress", Some(&body), None).unwrap();
    assert_eq!(reply.body, Some(vec![1, 2]));
    assert_eq!(call.action(), &CallAction::NoAction);
}

// --- dial ---

#[test]
fn call_dial() {
    let mut call = test_call();
    call.dial(
        DialTarget::to_uri("sip:bob@10.0.0.2:5060", 30),
        PolicyArgs::none(),
        &blank(),
        None,
    )
    .unwrap();
    assert_eq!(
        call.action(),
        &CallAction::Dial {
            target: "sip:bob@10.0.0.2:5060".to_string(),
            next_hop: None,
            flow: None,
            route: vec![],
            send_socket: None,
            timeout: 30,
        }
    );
    assert!(call.header_policy_input().is_none());
}

#[test]
fn call_dial_with_route() {
    let mut call = test_call();
    let route = texts(&["<sip:scscf.ims.mnc01.mcc001.3gppnetwork.org:6060;lr>"]);
    call.dial(
        DialTarget {
            route: route.clone(),
            ..DialTarget::to_uri("sip:1000@ims.mnc01.mcc001.3gppnetwork.org", 30)
        },
        PolicyArgs::none(),
        &blank(),
        None,
    )
    .unwrap();
    match call.action() {
        CallAction::Dial { route: dialed, .. } => assert_eq!(dialed, &route),
        other => panic!("expected Dial, got {other:?}"),
    }
}

#[test]
fn call_dial_next_hop() {
    let mut call = test_call();
    call.dial(
        DialTarget {
            next_hop: Some("sip:192.0.2.178:4060".to_string()),
            ..DialTarget::to_uri("sip:1000@ims.mnc001.mcc001.3gppnetwork.org", 30)
        },
        PolicyArgs::none(),
        &blank(),
        None,
    )
    .unwrap();
    assert_eq!(
        call.action(),
        &CallAction::Dial {
            target: "sip:1000@ims.mnc001.mcc001.3gppnetwork.org".to_string(),
            next_hop: Some("sip:192.0.2.178:4060".to_string()),
            flow: None,
            route: vec![],
            send_socket: None,
            timeout: 30,
        }
    );
}

#[test]
fn call_dial_with_header_policy_and_deltas() {
    let mut call = test_call();
    let translate = vec![("Diversion".to_string(), "rfc7044".to_string())];
    call.dial(
        DialTarget::to_uri("sip:bob@10.0.0.2:5060", 30),
        PolicyArgs {
            translate: translate.clone(),
            ..policy(
                Some("ims-trust-domain-boundary@2026"),
                &["X-Operator-Tag"],
                &["History-Info"],
            )
        },
        &blank(),
        None,
    )
    .unwrap();
    let input = call.header_policy_input().expect("policy input must be captured");
    assert_eq!(input.policy_name.as_deref(), Some("ims-trust-domain-boundary@2026"));
    assert_eq!(input.deltas_copy, vec!["X-Operator-Tag".to_string()]);
    assert_eq!(input.deltas_strip, vec!["History-Info".to_string()]);
    assert_eq!(input.deltas_translate, translate);
}

#[test]
fn call_dial_with_send_socket() {
    let mut call = test_call();
    call.dial(
        DialTarget {
            send_socket: Some("udp:10.0.0.1:5060".to_string()),
            ..DialTarget::to_uri("sip:bob@10.0.0.2:5060", 30)
        },
        PolicyArgs::none(),
        &blank(),
        None,
    )
    .unwrap();
    match call.action() {
        CallAction::Dial { send_socket, .. } => {
            assert_eq!(send_socket.as_deref(), Some("udp:10.0.0.1:5060"));
        }
        other => panic!("expected Dial, got {other:?}"),
    }
}

#[test]
fn call_dial_rejects_malformed_send_socket() {
    let mut call = test_call();
    let result = call.dial(
        DialTarget {
            send_socket: Some("not-a-socket".to_string()),
            ..DialTarget::to_uri("sip:bob@10.0.0.2:5060", 30)
        },
        PolicyArgs::none(),
        &blank(),
        None,
    );
    assert!(result.is_err());
    assert_eq!(call.action(), &CallAction::NoAction);
}

#[test]
fn a_send_socket_names_transport_address_and_port() {
    let ok = |s: &str| validate_send_socket(&Some(s.to_string())).is_ok();
    assert!(validate_send_socket(&None).is_ok());
    assert!(ok("tls:[2001:db8::1]:5061"));
    assert!(ok("UDP:10.0.0.1:5060"));
    assert!(!ok("smoke:10.0.0.1:5060"));
    assert!(!ok("udp:10.0.0.1"));
    assert!(!ok("udp:host:5060"));
    assert!(!ok(""));
}

#[test]
fn an_unknown_number_policy_leaves_the_call_as_it_was() {
    let mut call = test_call();
    let error = call
        .dial(
            DialTarget::to_uri("sip:bob@10.0.0.2", 30),
            PolicyArgs {
                number_policy: Some("nope@2026".to_string()),
                ..passthrough(&[])
            },
            &blank(),
            None,
        )
        .unwrap_err();
    assert_eq!(error.message, "unknown number policy \"nope@2026\"");
    assert_eq!(call.action(), &CallAction::NoAction);
    assert!(!call.auth_passthrough());
}

#[test]
fn call_dial_auth_passthrough_sets_flag_and_copies_both_auth_headers() {
    let mut call = test_call();
    call.dial(
        DialTarget::to_uri("sip:bob@pbx.example.com:5060", 30),
        passthrough(&[]),
        &blank(),
        None,
    )
    .unwrap();
    assert!(call.auth_passthrough(), "auth_passthrough flag must be set");
    let input = call
        .header_policy_input()
        .expect("auth_passthrough must capture policy input via the injected copies");
    assert!(input
        .deltas_copy
        .iter()
        .any(|h| h.eq_ignore_ascii_case("Proxy-Authenticate")));
    assert!(input
        .deltas_copy
        .iter()
        .any(|h| h.eq_ignore_ascii_case("Proxy-Authorization")));
}

#[test]
fn call_dial_auth_passthrough_does_not_duplicate_or_clobber_script_copies() {
    let mut call = test_call();
    call.dial(
        DialTarget::to_uri("sip:bob@pbx.example.com:5060", 30),
        passthrough(&["proxy-authenticate", "X-Keep"]),
        &blank(),
        None,
    )
    .unwrap();
    let input = call.header_policy_input().expect("policy input captured");
    let authenticate_count = input
        .deltas_copy
        .iter()
        .filter(|h| h.eq_ignore_ascii_case("Proxy-Authenticate"))
        .count();
    assert_eq!(authenticate_count, 1, "must not duplicate a script-supplied Proxy-Authenticate");
    assert!(input.deltas_copy.iter().any(|h| h == "X-Keep"), "script copies preserved");
    assert!(input
        .deltas_copy
        .iter()
        .any(|h| h.eq_ignore_ascii_case("Proxy-Authorization")));
}

#[test]
fn call_dial_auth_passthrough_defaults_false_zero_cost() {
    let mut call = test_call();
    call.dial(
        DialTarget::to_uri("sip:bob@10.0.0.2:5060", 30),
        PolicyArgs::none(),
        &blank(),
        None,
    )
    .unwrap();
    assert!(!call.auth_passthrough());
    assert!(call.header_policy_input().is_none());
}

// --- fork and carrier sequences ---

#[test]
fn parallel_fork_carries_each_bindings_own_path() {
    let mut call = test_call();
    let targets = vec![
        ForkTarget::Contact(binding_with_path(
            "sip:bob@10.0.0.2:5060",
            &["<sip:TOKEN-A@edge.example.com;lr>"],
        )),
        ForkTarget::Contact(binding_with_path(
            "sip:bob@10.0.0.3:5060",
            &["<sip:TOKEN-B@edge.example.com;lr>"],
        )),
        text_target("sip:carol@10.0.0.4"),
    ];
    call.fork(targets, fork_args("parallel"), PolicyArgs::none(), &blank(), None).unwrap();
    match call.action() {
        CallAction::Fork { targets, routes, .. } => {
            assert_eq!(targets.len(), 3);
            assert_eq!(routes.len(), 3, "routes stay parallel to targets");
            assert_eq!(routes[0], vec!["<sip:TOKEN-A@edge.example.com;lr>".to_string()]);
            assert_eq!(routes[1], vec!["<sip:TOKEN-B@edge.example.com;lr>".to_string()]);
            assert!(routes[2].is_empty(), "a bare string target carries no Path");
        }
        other => panic!("expected Fork, got {other:?}"),
    }
}

#[test]
fn sequential_fork_carries_each_bindings_path_as_route_and_next_hop() {
    let mut call = test_call();
    let targets = vec![
        ForkTarget::Contact(binding_with_path(
            "sip:bob@10.0.0.2:5060",
            &["<sip:TOKEN-A@edge.example.com;lr>"],
        )),
        text_target("sip:carol@10.0.0.4"),
    ];
    call.fork(targets, fork_args("sequential"), PolicyArgs::none(), &blank(), None).unwrap();
    match call.action() {
        CallAction::RouteSequence { routes, .. } => {
            assert_eq!(routes.len(), 2);
            assert_eq!(routes[0].ruri.as_deref(), Some("sip:bob@10.0.0.2:5060"));
            assert!(routes[0]
                .next_hop
                .as_deref()
                .unwrap()
                .contains("TOKEN-A@edge.example.com"));
            assert_eq!(
                routes[0].headers,
                vec![("Route".to_string(), "<sip:TOKEN-A@edge.example.com;lr>".to_string())]
            );
            assert_eq!(routes[1].ruri.as_deref(), Some("sip:carol@10.0.0.4"));
            assert!(routes[1].next_hop.is_none());
            assert!(routes[1].headers.is_empty());
        }
        other => panic!("expected RouteSequence, got {other:?}"),
    }
}

#[test]
fn call_fork() {
    let mut call = test_call();
    let targets = vec![text_target("sip:bob@10.0.0.2"), text_target("sip:bob@10.0.0.3")];
    call.fork(targets, fork_args("parallel"), PolicyArgs::none(), &blank(), None).unwrap();
    assert_eq!(
        call.action(),
        &CallAction::Fork {
            targets: vec!["sip:bob@10.0.0.2".to_string(), "sip:bob@10.0.0.3".to_string()],
            flows: vec![None, None],
            routes: vec![vec![], vec![]],
            strategy: "parallel".to_string(),
            send_socket: None,
            timeout: 30,
        }
    );
}

#[test]
fn call_fork_with_header_policy() {
    let mut call = test_call();
    let targets = vec![text_target("sip:bob@10.0.0.2"), text_target("sip:bob@10.0.0.3")];
    call.fork(
        targets,
        fork_args("parallel"),
        policy(Some("sip-trunk-edge@2026"), &[], &["X-Internal-Tag"]),
        &blank(),
        None,
    )
    .unwrap();
    let input = call.header_policy_input().expect("policy input must be captured");
    assert_eq!(input.policy_name.as_deref(), Some("sip-trunk-edge@2026"));
    assert_eq!(input.deltas_strip, vec!["X-Internal-Tag".to_string()]);
}

#[test]
fn a_fork_uses_a_flow_only_where_the_binding_is_local() {
    let local = PyContact {
        flow: Some(registered_flow()),
        is_local: true,
        ..binding_with_path("sip:bob@10.0.0.2", &[])
    };
    let remote = PyContact {
        flow: Some(registered_flow()),
        is_local: false,
        ..binding_with_path("sip:bob@10.0.0.3", &[])
    };
    let mut call = test_call();
    call.fork(
        vec![ForkTarget::Contact(local), ForkTarget::Contact(remote)],
        fork_args("parallel"),
        PolicyArgs::none(),
        &blank(),
        None,
    )
    .unwrap();
    match call.action() {
        CallAction::Fork { flows, .. } => {
            assert_eq!(flows, &vec![Some(registered_flow()), None]);
        }
        other => panic!("expected Fork, got {other:?}"),
    }
}

#[test]
fn a_fork_target_that_is_no_text_is_an_error() {
    let mut call = test_call();
    let error = call
        .fork(
            vec![text_target("sip:bob@10.0.0.2"), ForkTarget::Value(PyValue::Int(7))],
            fork_args("SEQUENTIAL"),
            PolicyArgs::none(),
            &blank(),
            None,
        )
        .unwrap_err();
    assert_eq!(error.kind, ErrorKind::Type);
    assert_eq!(call.action(), &CallAction::NoAction);
}

#[test]
fn a_route_set_of_several_proxies_keeps_its_order() {
    let mut call = test_call();
    call.fork(
        vec![ForkTarget::Contact(binding_with_path(
            "sip:bob@10.0.0.2",
            &["<sip:p1.example.com;lr>", "<sip:p2.example.com;lr>"],
        ))],
        fork_args("Sequential"),
        PolicyArgs::none(),
        &blank(),
        None,
    )
    .unwrap();
    match call.action() {
        CallAction::RouteSequence { routes, default_timeout, .. } => {
            assert_eq!(*default_timeout, 30);
            assert_eq!(routes[0].next_hop.as_deref(), Some("sip:p1.example.com;lr"));
            assert_eq!(
                routes[0].headers[0].1,
                "<sip:p1.example.com;lr>, <sip:p2.example.com;lr>"
            );
        }
        other => panic!("expected RouteSequence, got {other:?}"),
    }
}

#[test]
fn a_route_takes_carriers_and_at_least_one() {
    let mut call = test_call();
    let error = call.route(vec![], 20, None).unwrap_err();
    assert_eq!(error.message, "call.route() requires at least one route");
    let error = call.route(vec![RouteArg::Other], 20, None).unwrap_err();
    assert_eq!(error.kind, ErrorKind::Type);
    assert_eq!(call.action(), &CallAction::NoAction);
    let carrier = PyRoute::from_route(Route::to_uri("sip:1@c1".to_string()));
    call.route(vec![RouteArg::Route(carrier)], 20, Some("udp:10.0.0.1:5060".to_string()))
        .unwrap();
    match call.action() {
        CallAction::RouteSequence { routes, send_socket, default_timeout } => {
            assert_eq!(routes.len(), 1);
            assert_eq!(send_socket.as_deref(), Some("udp:10.0.0.1:5060"));
            assert_eq!(*default_timeout, 20);
        }
        other => panic!("expected RouteSequence, got {other:?}"),
    }
}

#[test]
fn call_terminate() {
    let mut call = test_call();
    call.terminate();
    assert_eq!(call.action(), &CallAction::Terminate);
}

// --- headers, timers, media ---

#[test]
fn call_header_access() {
    let call = test_call();
    assert_eq!(call.get_header("Call-ID"), Some("call-test-1".to_string()));
    assert!(call.has_header("Via"));
    assert!(!call.has_header("X-Custom"));
}

#[test]
fn call_session_timer_override() {
    let mut call = test_call();
    assert!(call.session_timer_override().is_none());
    call.session_timer(3600, 120, "uas");
    let override_config = call.session_timer_override().unwrap();
    assert_eq!(override_config.session_expires, 3600);
    assert_eq!(override_config.min_se, 120);
    assert_eq!(override_config.refresher, "uas");
}

#[test]
fn call_set_and_remove_header() {
    let mut call = test_call();
    call.set_header("X-Custom", "test-value", None);
    assert_eq!(call.get_header("X-Custom"), Some("test-value".to_string()));
    call.remove_header("X-Custom");
    assert_eq!(call.get_header("X-Custom"), None);
}

#[test]
fn headers_are_removed_by_prefix_whatever_their_case() {
    let mut call = test_call();
    call.set_header("X-Op-One", "1", None);
    call.set_header("x-OP-two", "2", None);
    call.set_header("X-Other", "3", None);
    call.remove_headers_matching("X-op-");
    assert!(!call.has_header("X-Op-One"));
    assert!(!call.has_header("X-Op-Two"));
    assert_eq!(call.header("x-other"), Some("3".to_string()));
    assert!(call.has_header("Via"));
}

#[test]
fn a_media_anchor_is_set_and_released() {
    let mut call = test_call();
    assert!(!call.media_handle().is_anchored());
    assert_eq!(call.media_handle().profile_name(), "srtp_to_rtp");
    call.media().anchor("rtpengine", "wss_to_rtp");
    assert!(call.media_handle().is_active());
    assert_eq!(call.media_handle().profile_name(), "wss_to_rtp");
    call.media().release();
    assert!(!call.media_handle().is_active());
    assert_eq!(call.media_handle().engine(), "rtpengine");
    assert_eq!(call.media_handle().profile_name(), "wss_to_rtp");
    let mut other = test_call();
    other.media().anchor("other", "rtp_passthrough");
    call.set_media(other.media_handle());
    assert!(call.media_handle().is_active());
    assert_eq!(call.media_handle().engine(), "other");
    assert_eq!(PyMediaHandle::default().engine(), "rtpengine");
}

#[test]
fn a_body_is_none_where_it_is_empty() {
    assert!(test_call().body().is_none());
    let mut invite = make_invite();
    invite.body = vec![118, 61, 48];
    let call = PyCall::new("i".to_string(), invite, "10.0.0.1".to_string(), "udp".to_string());
    assert_eq!(call.body(), Some(vec![118, 61, 48]));
}

#[test]
fn a_call_exposes_its_uris_and_flags() {
    let mut call = test_call();
    assert_eq!(call.from_uri().unwrap().render(), "sip:alice@atlanta.com");
    assert_eq!(call.to_uri().unwrap().render(), "sip:bob@example.com");
    assert_eq!(call.ruri().unwrap().render(), "sip:bob@example.com");
    assert_eq!(call.call_id().as_deref(), Some("call-test-1"));
    assert_eq!(call.li_method(), "INVITE");
    assert_eq!(call.li_from_uri().as_deref(), Some("sip:alice@atlanta.com"));
    assert!(call.li_source_ip().is_some());
    assert!(!call.preserve_call_id());
    call.keep_call_id();
    assert!(call.preserve_call_id());
    assert!(call.outbound_credentials().is_none());
    call.set_credentials("alice", "secret123");
    assert_eq!(call.outbound_credentials(), Some(("alice", "secret123")));
    let initiator = PyByeInitiator { side: "a".to_string() };
    assert_eq!(initiator.side, "a");
}

#[test]
fn charging_params_are_kept_under_the_callers_dialog() {
    let call = test_call();
    let param = call.set_charging_param("outgoing-trunk-group-id", "tg-7").unwrap();
    assert_eq!(param.dialog_key, "call-test-1\0abc");
    assert_eq!(param.name, "outgoing-trunk-group-id");
    assert_eq!(param.value, "tg-7");
    let untagged = call_with("From", address(None, uri("alice", "atlanta.com"), None));
    assert!(untagged.set_charging_param("a", "b").is_none());
}

// --- transfers ---

#[test]
fn call_accept_refer() {
    let mut call = test_call();
    call.accept_refer(None, None, None, None).unwrap();
    assert_eq!(
        call.action(),
        &CallAction::AcceptRefer { target: None, next_hop: None, mode: None, profile: None }
    );
}

#[test]
fn call_accept_refer_transparent_with_target() {
    let mut call = test_call();
    call.accept_refer(
        Some("sip:+15550142@example.com".to_string()),
        Some("sip:198.51.100.1:5060".to_string()),
        Some("transparent"),
        None,
    )
    .unwrap();
    assert_eq!(
        call.action(),
        &CallAction::AcceptRefer {
            target: Some("sip:+15550142@example.com".to_string()),
            next_hop: Some("sip:198.51.100.1:5060".to_string()),
            mode: Some(ReferMode::Transparent),
            profile: None,
        }
    );
}

#[test]
fn call_accept_refer_terminate_mode() {
    let mut call = test_call();
    call.accept_refer(None, None, Some("terminate"), None).unwrap();
    assert_eq!(
        call.action(),
        &CallAction::AcceptRefer {
            target: None,
            next_hop: None,
            mode: Some(ReferMode::Terminate),
            profile: None,
        }
    );
}

#[test]
fn call_refer_side_reports_the_referring_leg() {
    let mut call = test_call();
    assert_eq!(call.refer_side(), None);
    call.set_refer_from_a_leg(true);
    assert_eq!(call.refer_side(), Some("a"));
    call.set_refer_from_a_leg(false);
    assert_eq!(call.refer_side(), Some("b"), "matches the on_bye initiator convention");
}

#[test]
fn call_accept_refer_carries_a_media_profile() {
    let mut call = test_call();
    call.accept_refer(None, None, Some("terminate"), Some("rtp_passthrough".to_string())).unwrap();
    assert_eq!(
        call.action(),
        &CallAction::AcceptRefer {
            target: None,
            next_hop: None,
            mode: Some(ReferMode::Terminate),
            profile: Some("rtp_passthrough".to_string()),
        }
    );
}

#[test]
fn call_accept_refer_rejects_bad_mode() {
    let mut call = test_call();
    let result = call.accept_refer(None, None, Some("bridge"), None);
    assert_eq!(
        result.unwrap_err().message,
        "accept_refer(mode=…) must be 'terminate' or 'transparent', got \"bridge\""
    );
    assert_eq!(call.action(), &CallAction::NoAction);
}

#[test]
fn call_reject_refer() {
    let mut call = test_call();
    call.reject_refer(403, "Forbidden");
    assert_eq!(
        call.action(),
        &CallAction::RejectRefer { code: 403, reason: "Forbidden".to_string() }
    );
}

#[test]
fn call_refer_blind() {
    let mut call = test_call();
    call.refer("sip:+15550142@example.com", None).unwrap();
    match call.action() {
        CallAction::SendRefer { refer_to } => {
            assert_eq!(refer_to.uri, "sip:+15550142@example.com");
            assert!(refer_to.replaces.is_none());
        }
        other => panic!("expected SendRefer, got {other:?}"),
    }
}

#[test]
fn call_refer_attended() {
    let mut call = test_call();
    let dict = vec![
        ("call_id".to_string(), PyValue::text("abc@example.com")),
        ("from_tag".to_string(), PyValue::text("a-tag")),
        ("to_tag".to_string(), PyValue::text("b-tag")),
        ("early_only".to_string(), PyValue::Bool(true)),
    ];
    call.refer("sip:carol@example.com", Some(&dict)).unwrap();
    match call.action() {
        CallAction::SendRefer { refer_to } => {
            assert_eq!(refer_to.uri, "sip:carol@example.com");
            let replaces = refer_to.replaces.as_ref().expect("attended → Some(Replaces)");
            assert_eq!(replaces.call_id, "abc@example.com");
            assert_eq!(replaces.from_tag, "a-tag");
            assert_eq!(replaces.to_tag, "b-tag");
            assert!(replaces.early_only);
        }
        other => panic!("expected SendRefer, got {other:?}"),
    }
}

#[test]
fn parse_replaces_dict_missing_key_errors() {
    let dict = vec![("call_id".to_string(), PyValue::text("abc@example.com"))];
    let error = parse_replaces_dict(Some(&dict)).unwrap_err();
    assert_eq!(error.message, "replaces dict requires a 'from_tag' key");
}

#[test]
fn parse_replaces_dict_none_is_none() {
    assert!(parse_replaces_dict(None).unwrap().is_none());
}

#[test]
fn a_replaces_dict_must_hold_the_right_types() {
    let dict = |tag: PyValue, early: PyValue| {
        vec![
            ("call_id".to_string(), PyValue::text("c")),
            ("from_tag".to_string(), tag),
            ("to_tag".to_string(), PyValue::text("t")),
            ("early_only".to_string(), early),
        ]
    };
    let bad_tag = dict(PyValue::Int(1), PyValue::Bool(true));
    assert_eq!(parse_replaces_dict(Some(&bad_tag)).unwrap_err().kind, ErrorKind::Type);
    let bad_flag = dict(PyValue::text("f"), PyValue::Int(1));
    assert_eq!(parse_replaces_dict(Some(&bad_flag)).unwrap_err().kind, ErrorKind::Type);
}

#[test]
fn call_refer_to_initially_none() {
    let call = test_call();
    assert!(call.refer_to().is_none());
    assert!(call.refer_replaces().is_none());
}

#[test]
fn call_set_refer_to_blind() {
    let mut call = test_call();
    call.set_refer_to("sip:carol@example.com".to_string(), None);
    assert_eq!(call.refer_to(), Some("sip:carol@example.com"));
    assert!(call.refer_replaces().is_none());
}

#[test]
fn call_set_refer_to_attended() {
    let mut call = test_call();
    let replaces = Replaces {
        call_id: "other-call@host".to_string(),
        from_tag: "ft".to_string(),
        to_tag: "tt".to_string(),
        early_only: false,
    };
    call.set_refer_to("sip:carol@example.com".to_string(), Some(replaces));
    assert_eq!(call.refer_to(), Some("sip:carol@example.com"));
    let stored = call.refer_replaces().unwrap();
    let text = |key: &str| stored.get_item(key).unwrap().as_text().unwrap();
    assert_eq!(text("call_id"), "other-call@host");
    assert_eq!(text("from_tag"), "ft");
    assert_eq!(text("to_tag"), "tt");
    assert!(!stored.get_item("early_only").unwrap().as_bool().unwrap());
}

// --- identity rewriting ---

#[test]
fn call_set_ruri_user() {
    let mut call = test_call();
    call.set_ruri_user("+33123456789");
    match &call.message().start_line {
        StartLine::Request { request_uri, .. } => {
            assert_eq!(request_uri.user.as_deref(), Some("+33123456789"));
        }
        StartLine::Response { .. } => panic!("expected request start line"),
    }
}

#[test]
fn call_set_from_user() {
    let mut call = test_call();
    call.set_from_user("+33999888777");
    let from = call.get_header("From").unwrap();
    assert!(from.contains("+33999888777@atlanta.com"), "From should contain new user: {from}");
    assert!(from.contains(";tag=abc"), "From should preserve tag: {from}");
}

#[test]
fn call_set_to_user() {
    let mut call = test_call();
    call.set_to_user("1000");
    let to = call.get_header("To").unwrap();
    assert!(to.contains("1000@example.com"), "To should contain new user: {to}");
    assert!(!to.contains(";tag="), "Initial INVITE To must not gain a tag: {to}");
}

#[test]
fn call_set_to_user_preserves_tag() {
    let mut call =
        call_with("To", address(None, uri("bob", "example.com"), Some("remote-tag")));
    call.set_to_user("1000");
    let to = call.get_header("To").unwrap();
    assert!(to.contains("1000@example.com"), "To should contain new user: {to}");
    assert!(to.contains(";tag=remote-tag"), "To should preserve existing tag: {to}");
}

#[test]
fn call_set_from_host() {
    let mut call = test_call();
    call.set_from_host("tenant.example.com");
    let from = call.get_header("From").unwrap();
    assert!(from.contains("alice@tenant.example.com"), "From host should change: {from}");
    assert!(!from.contains("atlanta.com"), "old From host must be gone: {from}");
    assert!(from.contains(";tag=abc"), "From should preserve tag: {from}");
    assert_eq!(call.from_host_override(), Some("tenant.example.com"));
}

#[test]
fn call_set_from_host_preserves_display_user_port_tag() {
    let old = SipUri { port: Some(5060), ..uri("1001", "old.example.com") };
    let mut call = call_with("From", address(Some("Alice"), old, Some("xyz")));
    call.set_from_host("tenant.example.com");
    let from = call.get_header("From").unwrap();
    assert!(from.contains("\"Alice\""), "display name preserved: {from}");
    assert!(from.contains("1001@tenant.example.com:5060"), "user+host+port: {from}");
    assert!(from.contains(";tag=xyz"), "tag preserved: {from}");
    assert!(!from.contains("old.example.com"), "old host gone: {from}");
    assert_eq!(from, "\"Alice\" <sip:1001@tenant.example.com:5060>;tag=xyz");
}

#[test]
fn call_set_to_host() {
    let mut call = test_call();
    call.set_to_host("trunk.example.com");
    let to = call.get_header("To").unwrap();
    assert!(to.contains("bob@trunk.example.com"), "To host should change: {to}");
    assert!(
        !to.contains("example.com>") || to.contains("trunk.example.com"),
        "old host replaced: {to}"
    );
    assert!(!to.contains(";tag="), "initial INVITE To must not gain a tag: {to}");
    assert_eq!(call.to_host_override(), Some("trunk.example.com"));
}

#[test]
fn call_set_from_host_none_by_default() {
    let call = test_call();
    assert_eq!(call.from_host_override(), None);
    assert_eq!(call.to_host_override(), None);
}

#[test]
fn call_set_from_uri_replaces_uri_and_pins_host() {
    let mut call = test_call();
    call.set_from_uri(Ok(SipUri {
        port: Some(5070),
        params: ";transport=tcp".to_string(),
        ..uri("1001", "tenant.example.com")
    }))
    .unwrap();
    let from = call.get_header("From").unwrap();
    assert!(from.contains("1001@tenant.example.com:5070"), "user+host+port: {from}");
    assert!(from.contains("transport=tcp"), "uri params preserved: {from}");
    assert!(from.contains(";tag=abc"), "From tag preserved: {from}");
    assert!(!from.contains("atlanta.com"), "old host gone: {from}");
    assert_eq!(call.from_host_override(), Some("tenant.example.com"));
}

#[test]
fn call_set_to_uri_replaces_uri_and_pins_host() {
    let mut call = test_call();
    call.set_to_uri(parsed("1000", "ims.example.org")).unwrap();
    let to = call.get_header("To").unwrap();
    assert!(to.contains("1000@ims.example.org"), "user+host: {to}");
    assert!(!to.contains("example.com"), "old host gone: {to}");
    assert!(!to.contains(";tag="), "initial INVITE To must not gain a tag: {to}");
    assert_eq!(call.to_host_override(), Some("ims.example.org"));
}

#[test]
fn call_set_to_uri_preserves_display_and_tag() {
    let mut call =
        call_with("To", address(Some("Bob"), uri("bob", "example.com"), Some("remote")));
    call.set_to_uri(parsed("1000", "ims.example.org")).unwrap();
    let to = call.get_header("To").unwrap();
    assert!(to.contains("\"Bob\""), "display preserved: {to}");
    assert!(to.contains("1000@ims.example.org"), "uri replaced: {to}");
    assert!(to.contains(";tag=remote"), "tag preserved: {to}");
}

#[test]
fn a_uri_that_does_not_parse_changes_nothing() {
    let mut call = test_call();
    let error = call.set_from_uri(Err("no scheme".to_string())).unwrap_err();
    assert_eq!(error.display(), "ValueError: invalid SIP URI: no scheme");
    assert_eq!(call.get_header("From").as_deref(), Some("<sip:alice@atlanta.com>;tag=abc"));
    assert_eq!(call.from_host_override(), None);
    let mut broken = test_call();
    broken.set_header("From", "%%%", None);
    let error = broken.set_from_uri(parsed("1", "h")).unwrap_err();
    assert_eq!(error.message, "cannot parse From header: not an address");
    assert_eq!(broken.from_host_override(), None);
}

#[test]
fn the_host_is_pinned_even_without_a_header() {
    let mut call = test_call();
    call.remove_header("From");
    call.set_from_uri(parsed("1", "tenant.example.com")).unwrap();
    assert_eq!(call.from_host_override(), Some("tenant.example.com"));
    assert!(!call.has_header("From"));
}

#[test]
fn rewriting_keeps_the_other_header_parameters() {
    let addr = NameAddr {
        params: ";x=1".to_string(),
        ..address(None, uri("bob", "example.com"), Some("t"))
    };
    let mut call = call_with("To", addr);
    call.set_to_user("1000");
    assert_eq!(call.get_header("To").as_deref(), Some("<sip:1000@example.com>;tag=t;x=1"));
    call.set_to_host("h.example.com");
    assert_eq!(call.get_header("To").as_deref(), Some("<sip:1000@h.example.com>;tag=t;x=1"));
}

#[test]
fn call_set_contact_user_sets_override() {
    let mut call = test_call();
    assert_eq!(call.contact_user_override(), None);
    call.set_contact_user("1001");
    assert_eq!(call.contact_user_override(), Some("1001"));
}

#[test]
fn call_set_contact_uri_sets_override() {
    let mut call = test_call();
    assert_eq!(call.contact_override(), None);
    let contact = SipUri { port: Some(5060), ..uri("gruu-token", "edge.example.com") };
    call.set_contact_uri("sip:gruu-token@edge.example.com:5060", Ok(contact)).unwrap();
    assert_eq!(call.contact_override(), Some("sip:gruu-token@edge.example.com:5060"));
}

#[test]
fn call_set_contact_uri_rejects_invalid() {
    let mut call = test_call();
    assert!(call.set_contact_uri("not-a-uri", Err("missing scheme".to_string())).is_err());
    assert_eq!(call.contact_override(), None);
}

#[test]
fn a_withheld_caller_shows_no_identity_downstream() {
    let mut call = test_call();
    call.set_header(
        "P-Asserted-Identity",
        "<sip:alice@atlanta.com>",
        Some(address(None, uri("alice", "atlanta.com"), None)),
    );
    call.set_header("P-Preferred-Identity", "<sip:alice@atlanta.com>", None);
    call.set_header("Privacy", "header", None);
    call.restrict_caller_id();
    assert_eq!(
        call.get_header("From").as_deref(),
        Some("\"Anonymous\" <sip:anonymous@anonymous.invalid>;tag=abc")
    );
    assert_eq!(call.get_header("Privacy").as_deref(), Some("header;id"));
    assert!(call.has_header("P-Asserted-Identity"));
    assert!(!call.has_header("P-Preferred-Identity"));
    call.restrict_caller_id();
    assert_eq!(call.get_header("Privacy").as_deref(), Some("header;id"), "asked once");
    let mut plain = test_call();
    plain.restrict_caller_id();
    assert_eq!(plain.get_header("Privacy").as_deref(), Some("id"));
}

#[test]
fn another_caller_number_is_presented_everywhere() {
    let mut call = test_call();
    call.set_header(
        "P-Asserted-Identity",
        "<sip:alice@atlanta.com>",
        Some(address(None, uri("alice", "atlanta.com"), None)),
    );
    assert!(call.set_caller_id("+31201234567"));
    assert_eq!(
        call.get_header("From").as_deref(),
        Some("<sip:+31201234567@atlanta.com>;tag=abc")
    );
    assert_eq!(
        call.get_header("P-Asserted-Identity").as_deref(),
        Some("<sip:+31201234567@atlanta.com>")
    );
    let mut anonymous = test_call();
    anonymous.remove_header("From");
    assert!(!anonymous.set_caller_id("1"));
}

#[test]
fn identities_are_rewritten_only_under_a_policy() {
    let reshaped = || {
        let mut headers = Headers::new();
        headers.append(Header::of_address(
            "From",
            address(None, uri("+31612345678", "atlanta.com"), Some("abc")),
        ));
        Reshaped {
            headers,
            request_uri: Some(uri("+31687654321", "example.com")),
            changed: 2,
            targets: Vec::new(),
        }
    };
    let mut call = test_call();
    assert!(call
        .rewrite_identities(&blank(), None, None, None, None, reshaped())
        .is_err());
    assert!(call.has_header("Via"));
    let changed = call
        .rewrite_identities(&blank(), None, Some("e164"), None, Some("31"), reshaped())
        .unwrap();
    assert_eq!(changed, 2);
    assert_eq!(call.cdr_from_uri(), "sip:+31612345678@atlanta.com");
    assert_eq!(call.cdr_ruri(), "sip:+31687654321@example.com");
}

// --- gateways and networks ---

fn gateway_manager_with_group() -> PyGateway {
    let mut gateway = PyGateway::new();
    gateway.put_group(DispatcherGroup::new(
        "trunks".to_string(),
        Algorithm::Weighted,
        vec![Destination::new(
            "sip:gw1.example.com".to_string(),
            SocketAddr::parse("10.0.0.1:5060").unwrap(),
            Transport::Udp,
            1,
            1,
        )],
    ));
    gateway
}

#[test]
fn call_from_gateway_true_for_member_source() {
    let manager = gateway_manager_with_group();
    assert!(test_call().from_gateway_impl("trunks", Some(&manager)));
}

#[test]
fn call_from_gateway_false_for_non_member_source() {
    let manager = gateway_manager_with_group();
    assert!(!make_call("192.0.2.7", "udp").from_gateway_impl("trunks", Some(&manager)));
}

#[test]
fn call_from_gateway_false_for_unknown_group() {
    let manager = gateway_manager_with_group();
    assert!(!test_call().from_gateway_impl("nonexistent", Some(&manager)));
}

#[test]
fn call_from_gateway_false_when_no_manager() {
    assert!(!test_call().from_gateway_impl("trunks", None));
}

#[test]
fn call_from_gateway_false_for_unparseable_source_ip() {
    let manager = gateway_manager_with_group();
    assert!(!make_call("not-an-ip", "udp").from_gateway_impl("trunks", Some(&manager)));
}

#[test]
fn call_source_ip_in_matches_v4_and_v6_cidrs() {
    let call = make_call("203.0.113.9", "tls");
    assert!(call.source_ip_in(texts(&["203.0.113.0/24"])).unwrap());
    assert!(!call.source_ip_in(texts(&["198.51.100.0/24"])).unwrap());
    assert!(call.source_ip_in(texts(&["garbage", "203.0.113.0/24"])).unwrap());
    let call6 = make_call("2001:db8::5", "tls");
    assert!(call6.source_ip_in(texts(&["2001:db8::/32"])).unwrap());
    assert!(!call6.source_ip_in(texts(&["2001:db9::/32"])).unwrap());
}

#[test]
fn call_source_ip_in_raises_on_bad_source_ip() {
    let call = make_call("not-an-ip", "udp");
    assert!(call.source_ip_in(texts(&["203.0.113.0/24"])).is_err());
}

#[test]
fn more_networks_never_lose_a_match() {
    let call = make_call("203.0.113.9", "tls");
    assert!(call.source_ip_in(texts(&["198.51.100.0/24", "203.0.113.9/32"])).unwrap());
    assert!(call.source_ip_in(texts(&["0.0.0.0/0"])).unwrap());
    assert!(!call.source_ip_in(texts(&["::/0", "203.0.113.9"])).unwrap());
    assert!(!call.source_ip_in(vec![]).unwrap());
}

// --- records ---

#[test]
fn call_cdr_accessors() {
    let call = make_call("10.0.0.1", "tcp");
    assert_eq!(call.cdr_method(), "INVITE");
    assert_eq!(call.cdr_call_id(), "call-test-1");
    assert_eq!(call.cdr_from_uri(), "sip:alice@atlanta.com");
    assert_eq!(call.cdr_to_uri(), "sip:bob@example.com");
    assert_eq!(call.cdr_ruri(), "sip:bob@example.com");
    assert_eq!(call.cdr_source_ip(), "10.0.0.1");
    assert_eq!(call.cdr_transport(), "tcp");
}

#[test]
fn call_cdr_rf_dialog_keys_include_from_tag() {
    let keys = test_call().cdr_rf_dialog_key_candidates(None);
    assert_eq!(keys.first().map(String::as_str), Some("b2bua:test-id"));
    assert!(
        keys.iter().any(|k| k.contains("call-test-1") && k.contains("abc")),
        "expected a dialog key with Call-ID + From-tag, got {keys:?}"
    );
}

#[test]
fn the_charging_vector_comes_before_the_dialog() {
    let call = call_with("To", address(None, uri("bob", "example.com"), Some("xyz")));
    assert_eq!(
        call.cdr_rf_dialog_key_candidates(Some("icid-1".to_string())),
        texts(&["b2bua:test-id", "icid-1", "call-test-1\0abc", "call-test-1\0xyz"])
    );
}

#[test]
fn call_cdr_session_key_is_the_internal_call_id() {
    assert_eq!(test_call().cdr_session_key_candidates(), vec!["test-id".to_string()]);
}

#[test]
fn failed_attempts_and_reservations_become_dicts() {
    let mut call = test_call();
    assert!(call.active_route().is_none());
    call.set_active_route(Route::to_uri("sip:1@c2".to_string()));
    assert_eq!(call.active_route().unwrap().ruri(), Some("sip:1@c2"));
    call.set_route_attempts(vec![RouteAttempt {
        carrier_id: "c1".to_string(),
        status: 503,
        elapsed_ms: 1200,
        dialed: false,
    }]);
    let attempts = call.route_attempts();
    assert_eq!(attempts.len(), 1);
    assert_eq!(attempts[0].get_item("carrier_id").unwrap().as_text().unwrap(), "c1");
    assert_eq!(attempts[0].get_item("status").unwrap().as_u32().unwrap(), 503);
    assert!(!attempts[0].get_item("dialed").unwrap().as_bool().unwrap());
    let outcome = RoOutcome {
        authorized: true,
        result_code: Some(2001),
        granted_time: None,
        session_id: Some("s;1".to_string()),
    };
    let dict = outcome.to_dict();
    assert!(dict.get_item("authorized").unwrap().as_bool().unwrap());
    assert!(dict.get_item("granted_time").unwrap().is_nothing());
}

// --- least-cost routing ---

#[test]
fn a_routing_request_dials_the_ruri_user_else_the_to_user() {
    let call = test_call();
    let request = call.lcr_request("1", Some("tg".to_string()), vec![]);
    assert_eq!(request.dialed_number, "bob");
    assert_eq!(request.from, "sip:alice@atlanta.com");
    assert_eq!(request.source.ip, "10.0.0.1");
    assert_eq!(request.source.trunk_group.as_deref(), Some("tg"));
    let mut invite = make_invite();
    invite.start_line = StartLine::Request {
        method: "INVITE".to_string(),
        request_uri: SipUri::new("example.com".to_string()),
    };
    invite.headers.set(Header::of_address("To", address(None, uri("carol", "x"), None)));
    let call = PyCall::new("i".to_string(), invite, "10.0.0.1".to_string(), "udp".to_string());
    assert_eq!(call.lcr_request("1", None, vec![]).dialed_number, "carol");
}

#[test]
fn routing_attributes_must_map_text_to_text() {
    let lcr = PyLcr::new("1".to_string());
    let call = test_call();
    let good = vec![(PyValue::text("tier"), PyValue::text("gold"))];
    let request = lcr.route(&call, None, Some(good)).unwrap();
    assert_eq!(request.attributes, vec![("tier".to_string(), "gold".to_string())]);
    let bad = vec![(PyValue::text("tier"), PyValue::Int(1))];
    assert_eq!(lcr.route(&call, None, Some(bad)).unwrap_err().kind, ErrorKind::Type);
    assert!(lcr.route(&call, None, None).unwrap().attributes.is_empty());
}

#[test]
fn a_decision_lists_its_carriers_and_its_refusal() {
    let response = || LcrResponse {
        routes: vec![Route {
            carrier_id: "c1".to_string(),
            gateway_group: Some("g".to_string()),
            ruri: None,
            ..Route::to_uri(String::new())
        }],
        reject: Some(LcrReject { code: 404, reason: "No Route".to_string() }),
    };
    let decision = decision_of(LcrOutcome::Decision(response())).unwrap();
    assert_eq!(decision.routes()[0].carrier_id(), "c1");
    assert!(decision.routes()[0].is_routable());
    assert_eq!(decision.__repr__(), "LcrDecision(routes=1, reject=true)");
    let reject = decision.reject().unwrap();
    assert_eq!(reject.get_item("code").unwrap().as_u32().unwrap(), 404);
    assert_eq!(
        decision.routes()[0].__repr__("None"),
        "Route(carrier_id=\"c1\", gateway_group=Some(\"g\"), next_hop=None, rate=None)"
    );
    assert!(decision_of(LcrOutcome::Unavailable).is_none());
    let empty = PyLcrDecision::from_response(LcrResponse { routes: vec![], reject: None });
    assert!(empty.reject().is_none());
    let nowhere = Route { ruri: None, ..Route::to_uri(String::new()) };
    assert!(!PyRoute::from_route(nowhere).is_routable());
}
