//! Requests that a Diameter peer sent.

use siphon::diameter::codec::{
    Avp, AvpData, DiameterMsg, FLAG_PROXIABLE, FLAG_REQUEST, VENDOR_3GPP,
};
use siphon::diameter::dictionary::{AppDef, AvpDef, AvpType, CommandDef, Dictionary};
use siphon::diameter::server::{
    build_child_spec, BackendReply, ForwardStep, PyDiameterRequest, PyInboundPeer,
    AVP_DESTINATION_HOST, AVP_DESTINATION_REALM, AVP_ERROR_MESSAGE, AVP_ORIGIN_HOST,
    AVP_RESULT_CODE, AVP_ROUTE_RECORD, AVP_SESSION_ID, AVP_USER_NAME, DIAMETER_LOOP_DETECTED,
    DIAMETER_TOO_BUSY, DIAMETER_UNABLE_TO_DELIVER,
};
use siphon::pyvalue::PyValue;

const RO_APP_ID: u32 = 4;

const AUTHENTICATION_INFO: u32 = 1413;

const E_UTRAN_VECTOR: u32 = 1414;

const KASME: u32 = 1450;

fn def(code: u32, vendor_id: u32, name: &str, data_type: AvpType) -> AvpDef {
    AvpDef { code, vendor_id, name: name.to_string(), data_type }
}

fn dictionary() -> Dictionary {
    Dictionary {
        avps: vec![
            def(AVP_USER_NAME, 0, "User-Name", AvpType::UTF8String),
            def(AVP_SESSION_ID, 0, "Session-Id", AvpType::UTF8String),
            def(AVP_ORIGIN_HOST, 0, "Origin-Host", AvpType::DiameterIdentity),
            def(AVP_DESTINATION_REALM, 0, "Destination-Realm", AvpType::DiameterIdentity),
            def(AVP_DESTINATION_HOST, 0, "Destination-Host", AvpType::DiameterIdentity),
            def(AVP_RESULT_CODE, 0, "Result-Code", AvpType::Unsigned32),
            def(AUTHENTICATION_INFO, VENDOR_3GPP, "Authentication-Info", AvpType::Grouped),
            def(E_UTRAN_VECTOR, VENDOR_3GPP, "E-UTRAN-Vector", AvpType::Grouped),
            def(1447, VENDOR_3GPP, "RAND", AvpType::OctetString),
            def(1448, VENDOR_3GPP, "XRES", AvpType::OctetString),
            def(1449, VENDOR_3GPP, "AUTN", AvpType::OctetString),
            def(KASME, VENDOR_3GPP, "KASME", AvpType::OctetString),
        ],
        commands: vec![CommandDef {
            name: "Credit-Control".to_string(),
            acronym: "CCR".to_string(),
            code: 272,
        }],
        applications: vec![AppDef { name: "Ro".to_string(), vendor: 0, id: RO_APP_ID }],
    }
}

fn sample_request_msg() -> DiameterMsg {
    DiameterMsg {
        flags: FLAG_REQUEST | FLAG_PROXIABLE,
        command_code: 272,
        application_id: RO_APP_ID,
        hop_by_hop: 0x1111,
        end_to_end: 0x2222,
        avps: vec![
            Avp::utf8(AVP_SESSION_ID, 0, "mme;5;5"),
            Avp::utf8(AVP_ORIGIN_HOST, 0, "mme.epc.example.org"),
            Avp::utf8(AVP_DESTINATION_REALM, 0, "epc.example.org"),
            Avp::utf8(AVP_USER_NAME, 0, "001010000000001"),
        ],
    }
}

fn request_for(msg: DiameterMsg) -> PyDiameterRequest {
    PyDiameterRequest::new(
        msg,
        PyInboundPeer {
            name: "mme".into(),
            tenant: "default".into(),
            addr: "10.0.0.5:5000".into(),
            transport: "tcp".into(),
        },
        "dra.epc.example.org".into(),
        "epc.example.org".into(),
    )
}

fn py_request() -> PyDiameterRequest {
    request_for(sample_request_msg())
}

#[test]
fn header_attrs_and_extract_imsi() {
    let request = py_request();
    assert_eq!(request.command_code(), 272);
    assert_eq!(request.session_id().as_deref(), Some("mme;5;5"));
    assert_eq!(request.origin_host().as_deref(), Some("mme.epc.example.org"));
    assert_eq!(request.dest_realm().as_deref(), Some("epc.example.org"));
    assert!(request.is_request());
    assert!(request.is_proxiable());
    assert_eq!(request.extract_imsi().as_deref(), Some("001010000000001"));
    assert_eq!(request.application_id(), RO_APP_ID);
    assert_eq!(request.application_name(&dictionary()).as_deref(), Some("Ro"));
    assert_eq!(request.peer().name, "mme");
}

#[test]
fn get_set_remove_avp_roundtrip() {
    let dictionary = dictionary();
    let mut request = py_request();
    match request.get_avp(&dictionary, AVP_ORIGIN_HOST, 0) {
        Some(PyValue::Text(origin)) => assert_eq!(origin, "mme.epc.example.org"),
        _ => panic!("a text AVP reads as text"),
    }
    request
        .set_avp(
            &dictionary,
            &PyValue::text("Destination-Host"),
            &PyValue::text("scscf.epc.example.org"),
            0,
        )
        .ok()
        .unwrap();
    assert_eq!(request.dest_host().as_deref(), Some("scscf.epc.example.org"));
    assert_eq!(request.remove_avp(AVP_DESTINATION_HOST, 0), 1);
    assert!(request.dest_host().is_none());
}

#[test]
fn iter_avps_lists_all() {
    assert_eq!(py_request().iter_avps(&dictionary()).len(), 4);
}

fn pair(name: &str, value: PyValue) -> PyValue {
    PyValue::tuple(vec![PyValue::text(name), value])
}

#[test]
fn answer_then_build_nested_grouped_avp() {
    let dictionary = dictionary();
    let request = py_request();
    let mut answer = request.answer(2001, None);
    assert_eq!(answer.result_code(), Some(2001));
    assert!(!answer.is_error());
    let vector = PyValue::list(vec![
        pair("RAND", PyValue::Bytes(vec![0x11u8; 16])),
        pair("XRES", PyValue::Bytes(vec![0x22u8; 8])),
        pair("AUTN", PyValue::Bytes(vec![0x33u8; 16])),
        pair("KASME", PyValue::Bytes(vec![0x44u8; 32])),
    ]);
    let auth_info = PyValue::list(vec![pair("E-UTRAN-Vector", vector)]);
    answer
        .set_avp(&dictionary, &PyValue::text("Authentication-Info"), &auth_info, 0)
        .ok()
        .unwrap();

    let wire = answer.to_wire();
    let mut kasme_avp = vec![0, 0, 5, 170, 0xC0, 0, 0, 44, 0, 0, 40, 175];
    kasme_avp.extend_from_slice(&[0x44u8; 32]);
    assert!(wire.windows(kasme_avp.len()).any(|w| w == kasme_avp));
    let msg = DiameterMsg::from_wire(&dictionary, &wire).unwrap();
    let ai = msg
        .find(AUTHENTICATION_INFO, VENDOR_3GPP)
        .expect("Authentication-Info present");
    let eutran = match &ai.value {
        AvpData::Grouped(children) => children
            .iter()
            .find(|c| c.code == E_UTRAN_VECTOR)
            .expect("E-UTRAN-Vector present"),
        _ => panic!("Authentication-Info must be grouped"),
    };
    match &eutran.value {
        AvpData::Grouped(leaves) => {
            let kasme = leaves.iter().find(|c| c.code == KASME).unwrap();
            assert_eq!(kasme.raw_bytes(), Some(&[0x44u8; 32][..]));
        }
        _ => panic!("E-UTRAN-Vector must be grouped"),
    }

    match answer.get_avp(&dictionary, AUTHENTICATION_INFO, VENDOR_3GPP) {
        Some(PyValue::List(rows)) => assert_eq!(rows.len(), 1),
        _ => panic!("a grouped AVP reads as a list"),
    }
}

#[test]
fn reject_builds_error_answer() {
    let request = py_request();
    let answer = request.reject(DIAMETER_UNABLE_TO_DELIVER, Some("no route"));
    assert_eq!(answer.result_code(), Some(DIAMETER_UNABLE_TO_DELIVER));
    assert!(answer.is_error());
    assert_eq!(answer.command_code(), 272);
    assert_eq!(answer.message().get_str(AVP_SESSION_ID).as_deref(), Some("mme;5;5"));
    assert_eq!(answer.message().get_str(AVP_ERROR_MESSAGE).as_deref(), Some("no route"));
    assert_eq!(
        answer.message().get_str(AVP_ORIGIN_HOST).as_deref(),
        Some("dra.epc.example.org")
    );
}

#[test]
fn a_child_must_be_a_pair_or_triple() {
    let dictionary = dictionary();
    assert!(build_child_spec(&dictionary, &pair("RAND", PyValue::Bytes(vec![1]))).is_ok());
    assert!(build_child_spec(&dictionary, &PyValue::Int(1)).is_err());
    assert!(build_child_spec(&dictionary, &pair("No-Such-AVP", PyValue::Int(1))).is_err());
}

#[test]
fn a_relayed_request_records_its_route_and_keeps_its_identifiers() {
    let request = py_request();
    let sent = match request.forward_to(Some(("edge.example.org", "example.org")), 77) {
        ForwardStep::Send(sent) => sent,
        ForwardStep::Answer(_) => panic!("nothing has looped yet"),
    };
    assert_eq!(sent.hop_by_hop, 77);
    assert_eq!(sent.end_to_end, 0x2222);
    assert_eq!(sent.get_str(AVP_ORIGIN_HOST).as_deref(), Some("edge.example.org"));
    assert_eq!(sent.get_str(AVP_ROUTE_RECORD).as_deref(), Some("dra.epc.example.org"));

    let back = DiameterMsg { hop_by_hop: 77, end_to_end: 99, ..sample_request_msg() };
    let answer = request.complete_forward(&sent, BackendReply::Answered(back));
    assert_eq!(answer.message().hop_by_hop, 0x1111);
    assert_eq!(answer.message().end_to_end, 0x2222);
    let late = request.complete_forward(&sent, BackendReply::Failed("timed out".to_string()));
    assert_eq!(late.result_code(), Some(DIAMETER_TOO_BUSY));
    assert_eq!((late.message().hop_by_hop, late.message().end_to_end), (0x1111, 0x2222));
    let broken = request.complete_forward(&sent, BackendReply::Malformed);
    assert_eq!(broken.result_code(), Some(DIAMETER_UNABLE_TO_DELIVER));
    assert_eq!((broken.message().hop_by_hop, broken.message().end_to_end), (0x1111, 0x2222));
    let lost = request.complete_forward(&sent, BackendReply::Failed("refused".to_string()));
    assert_eq!(lost.result_code(), Some(DIAMETER_UNABLE_TO_DELIVER));
    assert_eq!((lost.message().hop_by_hop, lost.message().end_to_end), (0x1111, 0x2222));
    assert_eq!(request.iter_avps(&dictionary()).len(), 4);

    match request_for(sent).forward_to(None, 78) {
        ForwardStep::Answer(answer) => {
            assert_eq!(answer.result_code(), Some(DIAMETER_LOOP_DETECTED));
            assert_eq!(answer.message().hop_by_hop, 77);
            assert_eq!(answer.message().end_to_end, 0x2222);
        }
        ForwardStep::Send(_) => panic!("the request came back"),
    }
}

#[test]
fn a_request_names_its_command() {
    let mut request = py_request();
    assert_eq!(request.command_name(&dictionary()), "Credit-Control-Request");
    let unknown = request_for(DiameterMsg { command_code: 999, ..sample_request_msg() });
    assert_eq!(unknown.command_name(&dictionary()), "Unknown");
    assert_eq!(dictionary().command_name(272, false), "Credit-Control-Answer");
    request.remove_avp(AVP_USER_NAME, 0);
    request
        .insert_avp(&dictionary(), &PyValue::text("User-Name"), &PyValue::text("x"), 0)
        .ok()
        .unwrap();
    assert_eq!(request.peer().name, "mme");
    assert_eq!(request.peer().addr, "10.0.0.5:5000");
}

#[test]
fn what_is_written_is_read_back() {
    let dictionary = dictionary();
    let wire = sample_request_msg().to_wire();
    assert_eq!(wire.len() % 4, 0);
    let msg = DiameterMsg::from_wire(&dictionary, &wire).unwrap();
    assert_eq!(msg.flags, FLAG_REQUEST | FLAG_PROXIABLE);
    assert_eq!((msg.command_code, msg.application_id), (272, RO_APP_ID));
    assert_eq!((msg.hop_by_hop, msg.end_to_end), (0x1111, 0x2222));
    assert_eq!(msg.get_str(AVP_USER_NAME).as_deref(), Some("001010000000001"));
    assert_eq!(msg.to_wire(), wire);
}

#[test]
fn bytes_whose_lengths_do_not_add_up_are_no_message() {
    let dictionary = dictionary();
    let wire = sample_request_msg().to_wire();
    assert!(DiameterMsg::from_wire(&dictionary, &wire[..wire.len() - 4]).is_none());
    assert!(DiameterMsg::from_wire(&dictionary, &[]).is_none());
    let mut version = sample_request_msg().to_wire();
    version[0] = 2;
    assert!(DiameterMsg::from_wire(&dictionary, &version).is_none());
    let mut long = sample_request_msg().to_wire();
    long[27] = 0xff;
    assert!(DiameterMsg::from_wire(&dictionary, &long).is_none());
    let request = py_request();
    let sent = sample_request_msg();
    let reply = BackendReply::of_wire(&dictionary, Ok(long));
    assert_eq!(
        request.complete_forward(&sent, reply).message().get_str(AVP_ERROR_MESSAGE).as_deref(),
        Some("malformed answer from backend")
    );
    let reply = BackendReply::of_wire(&dictionary, Ok(wire));
    assert_eq!(request.complete_forward(&sent, reply).message().hop_by_hop, 0x1111);
    let reply = BackendReply::of_wire(&dictionary, Err("connection lost".to_string()));
    assert_eq!(
        request.complete_forward(&sent, reply).result_code(),
        Some(DIAMETER_UNABLE_TO_DELIVER)
    );
}
