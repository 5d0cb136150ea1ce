//! Placing and joining calls, filter criteria, recording, metrics, namespaces.

use siphon::b2bua::{
    CallerIdPresentation, ControlError, OriginateArgs, OriginateMedia, PeerHangupPolicy,
    PyB2buaControl,
};
use siphon::call::PyCall;
use siphon::error::ErrorKind;
use siphon::isc::{parse_session_case, IfcMatch, PyIsc, SessionCase};
use siphon::li::{AuditOperation, PyLiNamespace, RecordTarget};
use siphon::metrics::{measured, resolve_kwargs, PyMetricsNamespace};
use siphon::namespaces::{is_built_in, Attribute, Singletons, Slot, UserNamespaces};
use siphon::pyvalue::PyValue;
use siphon::request::PyRequest;
use siphon::sip::{Header, Headers, SipMessage, SipUri, StartLine};

fn originate_args() -> OriginateArgs {
    OriginateArgs {
        to: "sip:+14035551212@carrier.example".to_string(),
        from_uri: Some("sip:+14035550100@siphon.example".to_string()),
        from_display: Some("Reminders".to_string()),
        to_display: None,
        next_hop: None,
        p_asserted_identity: None,
        privacy: None,
        headers: None,
        sdp: None,
        media: true,
        profile: None,
        ws_uri: None,
        timeout: 30,
    }
}

fn message() -> SipMessage {
    let mut headers = Headers::new();
    headers.append(Header::plain("Call-ID", "c-1"));
    SipMessage {
        start_line: StartLine::Request {
            method: "INVITE".to_string(),
            request_uri: SipUri::new("example.com".to_string()),
        },
        headers,
        body: Vec::new(),
    }
}

fn request() -> PyRequest {
    PyRequest::new(message(), "udp".to_string(), "10.0.0.1".to_string(), 5060)
}

fn call() -> PyCall {
    PyCall::new("id".to_string(), message(), "10.0.0.1".to_string(), "udp".to_string())
}

#[test]
fn a_placed_call_needs_exactly_one_media_plan() {
    let control = PyB2buaControl::new();
    let anchored = control.originate(originate_args()).unwrap();
    assert_eq!(
        anchored.media,
        OriginateMedia::Anchor { profile: "rtp_passthrough".to_string(), ws_uri: None }
    );
    assert_eq!(anchored.timeout_secs, 30);
    assert!(anchored.headers.is_empty());
    let offered = control
        .originate(OriginateArgs {
            sdp: Some("v=0\r\n".to_string()),
            media: false,
            headers: Some(vec![("X-Campaign".to_string(), "reminder".to_string())]),
            ..originate_args()
        })
        .unwrap();
    assert_eq!(offered.media, OriginateMedia::Offer("v=0\r\n".to_string()));
    assert_eq!(offered.headers.len(), 1);
    let message = |args: OriginateArgs| control.originate(args).unwrap_err().message;
    assert!(message(OriginateArgs { sdp: Some("v=0".to_string()), ..originate_args() })
        .ends_with("not both"));
    assert_eq!(
        message(OriginateArgs { sdp: Some(" \t".to_string()), media: false, ..originate_args() }),
        "b2bua.originate sdp= must not be empty"
    );
    assert!(message(OriginateArgs { media: false, ..originate_args() })
        .starts_with("b2bua.originate needs a media plan"));
}

#[test]
fn a_placed_call_presents_or_withholds_its_caller() {
    let control = PyB2buaControl::new();
    let with = |privacy: &str| {
        control.originate(OriginateArgs { privacy: Some(privacy.to_string()), ..originate_args() })
    };
    assert_eq!(with("restricted").unwrap().privacy, Some(CallerIdPresentation::Restricted));
    assert_eq!(with("allowed").unwrap().privacy, Some(CallerIdPresentation::Allowed));
    assert_eq!(
        with("maybe").unwrap_err().message,
        "b2bua.originate privacy= must be \"allowed\" or \"restricted\", got 'maybe'"
    );
    assert_eq!(control.originated(Ok("call-9".to_string())).unwrap(), "call-9");
    assert!(control.originated(Err("no route".to_string())).is_err());
}

#[test]
fn a_bridge_names_what_happens_to_the_survivor() {
    let control = PyB2buaControl::new();
    let params = control.bridge("a", "b", "hold").unwrap();
    assert_eq!(params.on_peer_hangup, PeerHangupPolicy::Hold);
    assert_eq!(params.anchor_sip_call_id, "a");
    assert_eq!(params.peer_sip_call_id, "b");
    assert_eq!(control.bridge("a", "b", "hangup").unwrap().on_peer_hangup, PeerHangupPolicy::Hangup);
    assert!(control.bridge("a", "b", "drop").unwrap_err().message.contains("(got 'drop')"));
    assert!(control.controlled(Ok(())).unwrap());
    let failed = control
        .controlled(Err(ControlError {
            code: "not_found".to_string(),
            message: "no such call".to_string(),
        }))
        .unwrap_err();
    assert_eq!(failed.display(), "ValueError: not_found: no such call");
    assert_eq!(control.refer("sip:carol", None).unwrap().uri, "sip:carol");
    assert!(control.refer("sip:carol", Some(&vec![])).is_err());
}

#[test]
fn session_cases_have_short_names() {
    assert_eq!(parse_session_case("ORIG"), Some(SessionCase::Originating));
    assert_eq!(parse_session_case("originating"), Some(SessionCase::Originating));
    assert_eq!(parse_session_case("term"), Some(SessionCase::Terminating));
    assert_eq!(parse_session_case("orig_unreg"), Some(SessionCase::OriginatingUnregistered));
    assert_eq!(
        parse_session_case("Terminating_Unregistered"),
        Some(SessionCase::TerminatingUnregistered)
    );
    assert_eq!(parse_session_case("both"), None);
}

#[test]
fn matched_servers_become_dicts() {
    let isc = PyIsc::new();
    let matches = vec![IfcMatch {
        server_name: "sip:as.example.com".to_string(),
        default_handling: 1,
        service_info: None,
        priority: -3,
    }];
    let dicts = isc.evaluate("originating", &matches).unwrap();
    assert_eq!(dicts.len(), 1);
    assert_eq!(dicts[0].get_item("server_name").unwrap().as_text().unwrap(), "sip:as.example.com");
    assert!(dicts[0].get_item("service_info").unwrap().is_nothing());
    assert!(matches!(dicts[0].get_item("priority"), Some(PyValue::Int(-3))));
    let error = isc.evaluate("sideways", &matches).err().unwrap();
    assert_eq!(
        error.message,
        "invalid session_case: \"sideways\" — expected one of: originating, terminating, originating_unregistered, terminating_unregistered"
    );
    assert_eq!(isc.store_profile(Ok(4)).unwrap(), 4);
    assert_eq!(
        isc.store_profile(Err("bad tag".to_string())).unwrap_err().message,
        "iFC XML parse error: bad tag"
    );
}

#[test]
fn recording_marks_a_call_and_is_audited() {
    let li = PyLiNamespace::new(true);
    let mut call = call();
    let entry = li.record_call(&mut call).unwrap();
    assert_eq!(entry.operation, AuditOperation::MediaCaptureStarted);
    assert_eq!(entry.detail, "SIPREC recording started for call c-1");
    assert!(call.li_record());
    let request = request();
    assert_eq!(li.record(Some(&request)).unwrap().unwrap().call_id, "c-1");
    assert_eq!(li.record(None).unwrap_err().kind, ErrorKind::Type);
    let stopped = li.stop_recording(RecordTarget::Call(&call)).unwrap().unwrap();
    assert_eq!(stopped.operation, AuditOperation::MediaCaptureStopped);
    assert_eq!(stopped.detail, "SIPREC recording stopped for call c-1");
    assert!(li.stop_recording(RecordTarget::Request(&request)).unwrap().is_some());
    assert!(li.stop_recording(RecordTarget::Other).is_err());
}

#[test]
fn nothing_happens_while_the_subsystem_is_off() {
    let li = PyLiNamespace::new(false);
    let mut call = call();
    assert!(!li.is_enabled());
    assert!(li.record_call(&mut call).is_none());
    assert!(!call.li_record());
    assert!(li.record(None).unwrap().is_none());
    assert!(li.stop_recording(RecordTarget::Other).unwrap().is_none());
    assert!(!li.is_target(3));
}

#[test]
fn a_script_learns_of_a_warrant() {
    let li = PyLiNamespace::new(true);
    assert!(li.is_target(1));
    assert!(li.intercept(2));
    assert!(!li.stop_intercept(0));
    let query = li.session_query(&request());
    assert_eq!(query.call_id, "c-1");
    assert_eq!(query.ruri.as_deref(), Some("sip:example.com"));
    assert!(query.from_uri.is_none());
    assert!(query.source_ip.is_some());
}

#[test]
fn labels_come_in_the_order_of_the_metric() {
    let names = vec!["direction".to_string(), "carrier".to_string()];
    let kwargs = vec![
        ("carrier".to_string(), "c1".to_string()),
        ("unused".to_string(), "x".to_string()),
        ("direction".to_string(), "outbound".to_string()),
    ];
    assert_eq!(
        resolve_kwargs(&names, Some(&kwargs)).unwrap(),
        vec![
            ("direction".to_string(), "outbound".to_string()),
            ("carrier".to_string(), "c1".to_string()),
        ]
    );
    assert_eq!(
        resolve_kwargs(&names, None).unwrap_err().message,
        "labels() requires keyword arguments"
    );
    assert_eq!(
        resolve_kwargs(&names, Some(&vec![])).unwrap_err().message,
        "missing label 'direction'"
    );
}

#[test]
fn a_metric_with_labels_is_measured_through_them() {
    let ns = PyMetricsNamespace::new();
    let plain = ns.counter("calls_total", None, Ok(())).unwrap();
    assert_eq!(plain.inc().unwrap().name, "calls_total");
    assert!(plain.inc().unwrap().labels.is_empty());
    let labels = || Some(vec!["direction".to_string()]);
    let kwargs = vec![("direction".to_string(), "in".to_string())];
    let counter = ns.counter("calls_total", labels(), Ok(())).unwrap();
    assert_eq!(
        counter.inc().unwrap_err().message,
        "counter has labels — use .labels(...).inc() instead"
    );
    assert_eq!(counter.labels(Some(&kwargs)).unwrap().inc().labels, kwargs);
    let gauge = ns.gauge("active", labels(), Ok(())).unwrap();
    assert_eq!(
        gauge.dec().unwrap_err().message,
        "gauge has labels — use .labels(...).dec() instead"
    );
    assert!(gauge.inc().unwrap_err().message.contains(".inc()"));
    assert!(gauge.set().unwrap_err().message.contains(".set()"));
    let child = gauge.labels(Some(&kwargs)).unwrap();
    assert_eq!(child.set(), child.inc());
    assert_eq!(child.dec().name, "active");
    let histogram = ns.histogram("setup", labels(), Ok(())).unwrap();
    assert_eq!(
        histogram.observe().unwrap_err().message,
        "histogram has labels — use .labels(...).observe() instead"
    );
    assert_eq!(histogram.labels(Some(&kwargs)).unwrap().observe().labels, kwargs);
    assert!(ns.gauge("active", None, Err("duplicate".to_string())).is_err());
    assert!(ns.histogram("h", None, Err("duplicate".to_string())).is_err());
}

#[test]
fn host_namespaces_never_collide() {
    let mut spaces = UserNamespaces::new();
    spaces.set_user_namespace("billing", 1).unwrap();
    assert_eq!(
        spaces.set_user_namespace("diameter", 2).unwrap_err().message,
        "user namespace 'diameter' collides with a built-in siphon namespace"
    );
    assert_eq!(
        spaces.set_user_namespace("billing", 3).unwrap_err().message,
        "user namespace 'billing' is already registered"
    );
    assert_eq!(spaces.len(), 1);
    assert_eq!(spaces.get(0), Some(("billing".to_string(), 1)));
    assert_eq!(spaces.get(1), None);
    spaces.clear_user_namespaces();
    assert_eq!(spaces.len(), 0);
    assert!(spaces.set_user_namespace("billing", 3).is_ok());
    assert!(is_built_in("stir"));
    assert!(!is_built_in("Stir"));
}

#[test]
fn installed_objects_hide_nothing() {
    let mut slots = Singletons::new();
    slots.set_singleton(Slot::Auth, 1);
    slots.set_singleton(Slot::ProxyUtils, 2);
    slots.set_singleton(Slot::SubscribeState, 3);
    slots.set_singleton(Slot::Auth, 4);
    assert!(slots.is_set(Slot::Auth));
    assert!(!slots.is_set(Slot::Ipsec));
    let mut users = UserNamespaces::new();
    users.set_user_namespace("billing", 5).unwrap();
    let attribute = |on_proxy: bool, name: &str, object: u64| Attribute {
        on_proxy,
        name: name.to_string(),
        object,
    };
    assert_eq!(
        slots.attributes(&users),
        vec![
            attribute(false, "auth", 1),
            attribute(true, "_utils", 2),
            attribute(true, "subscribe_state", 3),
            attribute(false, "billing", 5),
        ]
    );
}

#[test]
fn a_refused_measurement_is_an_error() {
    assert!(measured(Ok(())).is_ok());
    let error = measured(Err("unknown metric".to_string())).err().unwrap();
    assert_eq!(error.display(), "RuntimeError: unknown metric");
}
