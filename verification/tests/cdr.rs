//! Records that scripts write.

use siphon::call::PyCall;
use siphon::cdr::{
    extra_fields, reached, write_cdr, CdrFields, CdrSource, KeptCdr, PyCdrNamespace, RfSession,
    WriteStep,
};
use siphon::error::ErrorKind;
use siphon::pyvalue::PyValue;
use siphon::request::PyRequest;
use siphon::sip::{Header, Headers, NameAddr, SipMessage, SipUri, StartLine};

fn address(user: &str, host: &str, tag: Option<&str>) -> NameAddr {
    NameAddr {
        display_name: None,
        uri: SipUri::new(host.to_string()).with_user(user.to_string()),
        tag: tag.map(str::to_string),
        params: String::new(),
    }
}

fn make_invite() -> SipMessage {
    let mut headers = Headers::new();
    headers.append(Header::plain("Via", "SIP/2.0/UDP 10.0.0.1:5060;branch=z9hG4bK-cdr"));
    headers.append(Header::of_address("From", address("alice", "atlanta.com", Some("abc"))));
    headers.append(Header::of_address("To", address("bob", "example.com", None)));
    headers.append(Header::plain("Call-ID", "cdr-call-1"));
    SipMessage {
        start_line: StartLine::Request {
            method: "INVITE".to_string(),
            request_uri: SipUri::new("example.com".to_string()).with_user("bob".to_string()),
        },
        headers,
        body: Vec::new(),
    }
}

fn request() -> PyRequest {
    PyRequest::new(make_invite(), "udp".to_string(), "10.0.0.1".to_string(), 5060)
}

fn call() -> PyCall {
    PyCall::new(
        "cdr-test".to_string(),
        make_invite(),
        "10.0.0.1".to_string(),
        "tcp".to_string(),
    )
}

fn extra(pairs: &[(&str, &str)]) -> Vec<(PyValue, PyValue)> {
    pairs.iter().map(|(k, v)| (PyValue::text(k), PyValue::text(v))).collect()
}

fn pair(k: &str, v: &str) -> (String, String) {
    (k.to_string(), v.to_string())
}

#[test]
fn write_accepts_request_and_call_and_rejects_others() {
    let mut namespace = PyCdrNamespace::new(false);
    let request = request();
    let step = namespace.write(CdrSource::Request(&request), None, None, &vec![]).unwrap();
    assert!(!reached(&step, true));
    let call = call();
    let step = namespace.write(CdrSource::Call(&call), None, None, &vec![]).unwrap();
    assert!(!reached(&step, true));
    let error = namespace.write(CdrSource::Other, None, None, &vec![]).err().unwrap();
    assert_eq!(error.kind, ErrorKind::Type);
    assert_eq!(error.message, "cdr.write() expects a Request or Call object");
}

#[test]
fn resolved_fields_carry_the_auto_emit_session_keys() {
    let fields = CdrFields::from_request(&request(), None);
    assert_eq!(fields.session_keys, vec!["cdr-call-1\0abc".to_string()]);
    let fields = CdrFields::from_call(&call(), None);
    assert_eq!(fields.session_keys, vec!["cdr-test".to_string()]);
}

#[test]
fn extra_fields_takes_strings_only() {
    let dict = vec![
        (PyValue::text("billing_id"), PyValue::text("B-12345")),
        (PyValue::text("rate"), PyValue::Float(0.02_f64.to_bits())),
        (PyValue::Int(7), PyValue::text("numeric key")),
    ];
    let fields = extra_fields(Some(&dict));
    assert_eq!(fields, vec![pair("billing_id", "B-12345")]);
    assert!(extra_fields(None).is_empty());
}

#[test]
fn fields_are_merged_into_a_record_that_is_kept() {
    let mut namespace = PyCdrNamespace::new(true);
    assert!(namespace.enabled());
    namespace.kept.push(KeptCdr { key: "other".to_string(), extra: vec![] });
    namespace.kept.push(KeptCdr { key: "cdr-test".to_string(), extra: vec![pair("a", "1")] });
    let call = call();
    let first = extra(&[("billing_id", "B-1"), ("a", "2")]);
    let step = namespace.write(CdrSource::Call(&call), None, Some(&first), &vec![]).unwrap();
    assert!(matches!(step, WriteStep::Merged));
    assert!(reached(&step, false));
    let second = extra(&[("billing_id", "B-2")]);
    namespace.write(CdrSource::Call(&call), None, Some(&second), &vec![]).unwrap();
    assert_eq!(namespace.kept[1].extra, vec![pair("a", "2"), pair("billing_id", "B-2")]);
    assert!(namespace.kept[0].extra.is_empty());
}

#[test]
fn a_record_of_its_own_is_stamped_with_the_charging_session() {
    let mut namespace = PyCdrNamespace::new(true);
    let sessions = vec![
        RfSession {
            key: "cdr-call-1\0abc".to_string(),
            session_id: "dialog".to_string(),
            result_code: None,
        },
        RfSession {
            key: "b2bua:cdr-test".to_string(),
            session_id: "call".to_string(),
            result_code: Some(2001),
        },
    ];
    let call = call();
    let step = namespace.write(CdrSource::Call(&call), None, None, &sessions).unwrap();
    assert!(!reached(&step, false), "no room in the queue");
    match &step {
        WriteStep::Standalone(record) => {
            assert_eq!(record.method, "INVITE");
            assert_eq!(record.from_uri, "sip:alice@atlanta.com");
            assert_eq!(record.transport, "tcp");
            assert_eq!(
                record.extra,
                vec![pair("rf_session_id", "call"), pair("rf_result_code", "2001")]
            );
        }
        _ => panic!("expected a record of its own"),
    }
    let request = request();
    let step = namespace.write(CdrSource::Request(&request), None, None, &sessions).unwrap();
    match step {
        WriteStep::Standalone(record) => {
            assert_eq!(record.extra, vec![pair("rf_session_id", "dialog")]);
        }
        _ => panic!("expected a record of its own"),
    }
}

#[test]
fn what_the_script_adds_takes_the_place_of_the_stamp() {
    let sessions = vec![RfSession {
        key: "icid".to_string(),
        session_id: "stamped".to_string(),
        result_code: None,
    }];
    let fields = CdrFields::from_request(&request(), Some("icid".to_string()));
    let record = write_cdr(fields, &sessions, &vec![pair("rf_session_id", "manual")]);
    assert_eq!(record.extra, vec![pair("rf_session_id", "manual")]);
}
