//! The Diameter client namespace.

use siphon::diameter::charging::{
    accounting_answer_to_dict, build_ims_data, build_sms_data, parse_optional_ip, rf_acr_event,
    rf_acr_interim, rf_acr_start, rf_acr_stop, AccountingAnswer, AccountingRecordType, ImsArgs,
    NodeFunctionality, NodeRole, RfArgs, SmsArgs,
};
use siphon::diameter::client::{
    air_result, answer_result, extract_references, extract_result_code, ip_in_cidr,
    octet_string_as_utf8, peer_pool, required_str, server_name_answer, server_name_result,
    sh_user_data_answer, user_data_answer, ClientCall, EutranVector, PyDiameter,
};
use siphon::diameter::codec::{encode_text, encode_u32, VENDOR_3GPP};
use siphon::diameter::dictionary::{
    avp_name_to_snake, validate_request_filter, AppDef, AvpDef, AvpType, CommandDef, Dictionary,
};
use siphon::diameter::generic::{encode_kwarg_avp, json_to_py, send_request, JsonValue};
use siphon::diameter::glob::fnmatch;
use siphon::diameter::rx::{
    extract_ipv6_prefix, extract_subscription_id, flow_status_from_str, flow_usage_from_str,
    media_type_from_str, parse_media_components, rx_aar, AarArgs, FlowStatus, FlowUsage,
    MediaType, PeerContext, AVP_FLOW_USAGE,
};
use siphon::pyvalue::PyValue;

fn text(s: &str) -> PyValue {
    PyValue::text(s)
}

fn num(n: i128) -> PyValue {
    PyValue::Int(n)
}

fn dict(entries: Vec<(&str, PyValue)>) -> PyValue {
    PyValue::dict(entries.into_iter().map(|(k, v)| (k.to_string(), v)).collect())
}

fn list(items: Vec<PyValue>) -> PyValue {
    PyValue::list(items)
}

fn def(code: u32, name: &str, data_type: AvpType) -> AvpDef {
    AvpDef { code, vendor_id: VENDOR_3GPP, name: name.to_string(), data_type }
}

fn dictionary() -> Dictionary {
    Dictionary {
        avps: vec![
            def(3300, "SC-Address", AvpType::OctetString),
            def(3301, "SM-RP-UI", AvpType::OctetString),
            def(3324, "SMSMI-Correlation-ID", AvpType::Grouped),
            def(3308, "SM-RP-MTI", AvpType::Enumerated),
        ],
        commands: vec![
            CommandDef {
                name: "Send-Routing-Info-for-SM".to_string(),
                acronym: "SRR".to_string(),
                code: 8388647,
            },
            CommandDef {
                name: "Credit-Control".to_string(),
                acronym: "CCR".to_string(),
                code: 272,
            },
        ],
        applications: vec![AppDef {
            name: "S6c".to_string(),
            vendor: VENDOR_3GPP,
            id: 16777312,
        }],
    }
}

fn peer() -> PeerContext {
    PeerContext {
        hop_by_hop: 1,
        end_to_end: 2,
        new_session_id: "siphon;1;1".to_string(),
        origin_host: "siphon.example.com".to_string(),
        origin_realm: "example.com".to_string(),
        destination_realm: "example.com".to_string(),
        destination_host: None,
    }
}

fn has(wire: &[u8], part: &[u8]) -> bool {
    wire.windows(part.len()).any(|w| w == part)
}

#[test]
fn empty_manager_no_peers() {
    let py_diameter = PyDiameter::new();
    assert_eq!(py_diameter.peer_count(), 0);
    assert!(!py_diameter.is_connected("hss1"));
}

#[test]
fn connected_after_register() {
    let mut py_diameter = PyDiameter::new();
    py_diameter.register("hss1".to_string());
    assert_eq!(py_diameter.peer_count(), 1);
    assert!(py_diameter.is_connected("hss1"));
    assert!(!py_diameter.is_connected("hss2"));
}

#[test]
fn cx_uar_returns_none_without_peer() {
    let py_diameter = PyDiameter::new();
    assert!(py_diameter
        .cx_uar("sip:alice@example.com".to_string(), None, None)
        .is_none());
}

#[test]
fn cx_uar_with_user_auth_type_returns_none_without_peer() {
    let py_diameter = PyDiameter::new();
    assert!(py_diameter
        .cx_uar("sip:alice@example.com".to_string(), None, Some(0))
        .is_none());
}

#[test]
fn cx_sar_returns_none_without_peer() {
    let py_diameter = PyDiameter::new();
    assert!(py_diameter
        .cx_sar("sip:alice@example.com".to_string(), None, 1)
        .is_none());
}

#[test]
fn cx_lir_returns_none_without_peer() {
    let py_diameter = PyDiameter::new();
    assert!(py_diameter.cx_lir("sip:alice@example.com".to_string()).is_none());
}

#[test]
fn a_connected_peer_gets_the_request() {
    let mut py_diameter = PyDiameter::new();
    py_diameter.register("hss1".to_string());
    let planned = py_diameter
        .cx_uar("sip:alice@example.com".to_string(), Some("visited".to_string()), Some(1))
        .unwrap();
    assert_eq!(planned.peer, "hss1");
    match planned.call {
        ClientCall::Uar { public_identity, visited_network_id, user_auth_type } => {
            assert_eq!(public_identity, "sip:alice@example.com");
            assert_eq!(visited_network_id, "visited");
            assert_eq!(user_auth_type, Some(1));
        }
        _ => panic!("expected a UAR"),
    }
    match py_diameter.rx_str("rx-session-1".to_string()).unwrap().call {
        ClientCall::Str { session_id, termination_cause } => {
            assert_eq!(session_id, "rx-session-1");
            assert_eq!(termination_cause, 1);
        }
        _ => panic!("expected an STR"),
    }
    assert_eq!(py_diameter.pick_rf_peer(None).as_deref(), Some("hss1"));
    assert_eq!(py_diameter.pick_rf_peer(Some("other")), None);
}

fn full_component() -> PyValue {
    let rtp = dict(vec![
        ("number", num(1)),
        (
            "descriptions",
            list(vec![
                text("permit out 17 from 10.0.0.1 50000 to 10.0.0.2 30000"),
                text("permit in 17 from 10.0.0.2 30000 to 10.0.0.1 50000"),
            ]),
        ),
    ]);
    let rtcp = dict(vec![
        ("number", num(2)),
        ("usage", text("rtcp")),
        (
            "descriptions",
            list(vec![
                text("permit out 17 from 10.0.0.1 50001 to 10.0.0.2 30001"),
                text("permit in 17 from 10.0.0.2 30001 to 10.0.0.1 50001"),
            ]),
        ),
    ]);
    dict(vec![
        ("number", num(1)),
        ("media_type", text("audio")),
        ("max_bandwidth_ul", num(64000)),
        ("max_bandwidth_dl", num(64000)),
        ("flow_status", text("enabled")),
        (
            "codec_data",
            PyValue::Bytes(b"uplink\noffer\nm=audio 50000 RTP/AVP 0".to_vec()),
        ),
        ("flows", list(vec![rtp, rtcp])),
    ])
}

#[test]
fn parse_media_components_full_shape() {
    let parsed = parse_media_components(&list(vec![full_component()])).ok().unwrap();
    assert_eq!(parsed.len(), 1);
    let mc = &parsed[0];
    assert_eq!(mc.number, 1);
    assert_eq!(mc.max_bandwidth_ul, Some(64000));
    assert_eq!(mc.max_bandwidth_dl, Some(64000));
    assert_eq!(mc.flows.len(), 2);
    assert_eq!(mc.flows[0].flow_number, 1);
    assert_eq!(mc.flows[0].descriptions.len(), 2);
    assert_eq!(mc.flows[1].flow_number, 2);
    assert!(matches!(mc.flows[1].usage, Some(FlowUsage::Rtcp)));
    let encoded = mc.encode();
    assert!(
        has(&encoded, b"permit out 17 from 10.0.0.1 50000 to 10.0.0.2 30000"),
        "encoded MCD must contain the full 5-tuple Flow-Description"
    );
    assert!(
        has(&encoded, &AVP_FLOW_USAGE.to_be_bytes()),
        "RTCP sub-component must carry a Flow-Usage AVP"
    );
}

#[test]
fn parse_media_components_missing_number_errors() {
    let component = dict(vec![("media_type", text("audio"))]);
    let error = parse_media_components(&list(vec![component])).err().unwrap();
    assert!(error.display().contains("number"));
}

#[test]
fn media_words_are_read_and_others_refused() {
    assert!(media_type_from_str("VIDEO").ok() == Some(MediaType::Video));
    assert!(media_type_from_str("hologram").is_err());
    assert!(flow_status_from_str("disabled").ok() == Some(FlowStatus::Disabled));
    assert!(flow_status_from_str("maybe").is_err());
    assert!(flow_usage_from_str("rtcp").ok() == Some(FlowUsage::Rtcp));
    assert!(flow_usage_from_str("x").is_err());
}

#[test]
fn extract_subscription_id_string_alias() {
    let tuple = PyValue::tuple(vec![text("sip:alice@example.com"), text("sip_uri")]);
    let (data, type_num) = extract_subscription_id(&tuple).ok().unwrap();
    assert_eq!(data, "sip:alice@example.com");
    assert_eq!(type_num, 2);
}

#[test]
fn an_ipv6_prefix_is_text_or_bytes() {
    let prefix = extract_ipv6_prefix(&text("2001:db8::1")).ok().unwrap();
    assert_eq!(&prefix[..6], &[0, 128, 0x20, 0x01, 0x0d, 0xb8]);
    assert_eq!(
        extract_ipv6_prefix(&PyValue::Bytes(vec![0, 64, 1, 2])).ok().unwrap(),
        vec![0, 64, 1, 2]
    );
    assert!(extract_ipv6_prefix(&text("10.0.0.1")).is_err());
}

fn aar(session_id: Option<&str>, media_components: Option<PyValue>) -> AarArgs {
    AarArgs {
        session_id: session_id.map(|s| s.to_string()),
        framed_ip: None,
        framed_ipv6: None,
        media_components,
        af_application_id: "IMS Services".to_string(),
        subscription_id: None,
    }
}

#[test]
fn rx_aar_returns_none_without_peer() {
    assert!(matches!(rx_aar(&aar(None, None), None), Ok(None)));
}

#[test]
fn an_aar_carries_its_session_and_components() {
    let request = rx_aar(&aar(None, Some(list(vec![full_component()]))), Some(&peer()))
        .ok()
        .unwrap()
        .unwrap();
    assert_eq!(request.session_id, "siphon;1;1");
    assert_eq!(request.wire[0], 1);
    assert!(has(&request.wire, b"IMS Services"));
    assert!(has(&request.wire, b"permit in 17 from 10.0.0.2 30000 to 10.0.0.1 50000"));
    let length = u32::from_be_bytes([0, request.wire[1], request.wire[2], request.wire[3]]);
    assert_eq!(length as usize, request.wire.len());
    let modified = rx_aar(&aar(Some("rx-7"), None), Some(&peer())).ok().unwrap().unwrap();
    assert_eq!(modified.session_id, "rx-7");
    let bad = AarArgs { framed_ip: Some("nowhere".to_string()), ..aar(None, None) };
    assert!(rx_aar(&bad, Some(&peer())).is_err());
    assert!(matches!(rx_aar(&bad, None), Ok(None)));
}

#[test]
fn rx_str_returns_none_without_peer() {
    let py_diameter = PyDiameter::new();
    assert!(py_diameter.rx_str("rx-session-1".to_string()).is_none());
}

#[test]
fn sh_udr_returns_none_without_peer() {
    let py_diameter = PyDiameter::new();
    let result = py_diameter.sh_udr(
        "sip:alice@ims.example.com".to_string(),
        &num(0),
        Some("simservs".to_string()),
    );
    assert!(matches!(result, Ok(None)));
}

#[test]
fn sh_pur_returns_none_without_peer() {
    let py_diameter = PyDiameter::new();
    let result = py_diameter.sh_pur(
        "sip:alice@ims.example.com".to_string(),
        0,
        "<simservs/>".to_string(),
        Some("simservs".to_string()),
    );
    assert!(result.is_none());
}

#[test]
fn sh_snr_returns_none_without_peer() {
    let py_diameter = PyDiameter::new();
    let result = py_diameter.sh_snr(
        "sip:alice@ims.example.com".to_string(),
        &list(vec![num(0), num(17)]),
        0,
        Some("simservs".to_string()),
    );
    assert!(matches!(result, Ok(None)));
}

#[test]
fn extract_references_accepts_int_and_list() {
    assert_eq!(extract_references(&num(17)).ok().unwrap(), vec![17]);
    assert_eq!(
        extract_references(&list(vec![num(0), num(11)])).ok().unwrap(),
        vec![0, 11]
    );
    assert!(extract_references(&text("17")).is_err());
}

#[test]
fn send_request_rejects_unknown_command() {
    let error = send_request(&dictionary(), "Bogus-Command-Request", "S6c", None, &vec![])
        .err()
        .expect("unknown command must error");
    let msg = error.display();
    assert!(msg.contains("unknown Diameter command"), "msg: {msg}");
}

#[test]
fn send_request_rejects_unknown_application() {
    let error = send_request(
        &dictionary(),
        "Send-Routing-Info-for-SM-Request",
        "BogusApp",
        None,
        &vec![],
    )
    .err()
    .expect("unknown app must error");
    let msg = error.display();
    assert!(msg.contains("unknown Diameter application"), "msg: {msg}");
}

#[test]
fn send_request_returns_none_without_peer() {
    let result = send_request(
        &dictionary(),
        "Send-Routing-Info-for-SM-Request",
        "S6c",
        None,
        &vec![],
    );
    assert!(matches!(result, Ok(None)));
}

#[test]
fn a_request_by_name_carries_its_avps() {
    let avps = vec![
        ("sc_address".to_string(), text("31611111111")),
        ("sm_rp_mti".to_string(), num(1)),
    ];
    let request = send_request(&dictionary(), "SRR", "S6c", Some(&peer()), &avps)
        .ok()
        .unwrap()
        .unwrap();
    assert_eq!(request.session_id, "siphon;1;1");
    assert!(has(&request.wire, &encode_text(3300, VENDOR_3GPP, "31611111111")));
    assert!(has(&request.wire, &encode_u32(3308, VENDOR_3GPP, 1)));
    assert_eq!(&request.wire[5..8], &8388647u32.to_be_bytes()[1..]);
    let unknown = vec![("no_such_avp".to_string(), num(1))];
    assert!(send_request(&dictionary(), "SRR", "S6c", Some(&peer()), &unknown).is_err());
}

#[test]
fn encode_kwarg_avp_encodes_string_octet() {
    let dictionary = dictionary();
    let avp_def = dictionary
        .lookup_avp_by_python_name("sc_address")
        .expect("sc_address must resolve");
    let encoded = encode_kwarg_avp(avp_def, &text("31611111111")).ok().unwrap();
    assert!(!encoded.is_empty(), "OctetString AVP must produce bytes");
    assert_eq!(
        encoded,
        [
            &[0, 0, 12, 228, 0xC0, 0, 0, 23, 0, 0, 40, 175][..],
            b"31611111111",
            &[0]
        ]
        .concat()
    );
}

#[test]
fn encode_kwarg_avp_encodes_bytes_octet() {
    let dictionary = dictionary();
    let avp_def = dictionary
        .lookup_avp_by_python_name("sm_rp_ui")
        .expect("sm_rp_ui must resolve");
    let encoded = encode_kwarg_avp(avp_def, &PyValue::Bytes(vec![0xDE, 0xAD, 0xBE, 0xEF]))
        .ok()
        .unwrap();
    assert!(!encoded.is_empty());
    assert_eq!(&encoded[12..], &[0xDE, 0xAD, 0xBE, 0xEF]);
}

#[test]
fn a_keyword_avp_carries_the_vendor_of_its_entry() {
    let entry = |vendor_id: u32, data_type: AvpType| AvpDef {
        code: 7,
        vendor_id,
        name: "X".to_string(),
        data_type,
    };
    let wire = |vendor_id: u32, data_type: AvpType, value: PyValue| {
        encode_kwarg_avp(&entry(vendor_id, data_type), &value).ok().unwrap()
    };
    let vendor = |length: u8, data: &[u8]| {
        [&[0, 0, 0, 7, 0xC0, 0, 0, length, 0, 0, 40, 175][..], data].concat()
    };
    let bare = |length: u8, data: &[u8]| [&[0, 0, 0, 7, 0x40, 0, 0, length][..], data].concat();
    let minus = [0xff, 0xff, 0xff, 0xfe];
    assert_eq!(wire(VENDOR_3GPP, AvpType::Integer32, num(-2)), vendor(16, &minus));
    assert_eq!(wire(0, AvpType::Integer32, num(-2)), bare(12, &minus));
    let long = [0, 0, 0, 0, 0, 0, 0, 9];
    assert_eq!(wire(VENDOR_3GPP, AvpType::Unsigned64, num(9)), vendor(20, &long));
    assert_eq!(wire(0, AvpType::Unsigned64, num(9)), bare(16, &long));
    let address = [0, 1, 10, 0, 0, 1, 0, 0];
    assert_eq!(wire(VENDOR_3GPP, AvpType::Address, text("10.0.0.1")), vendor(18, &address));
    assert_eq!(wire(0, AvpType::Address, text("10.0.0.1")), bare(14, &address));
    assert_eq!(wire(VENDOR_3GPP, AvpType::Unsigned32, num(1)), vendor(16, &[0, 0, 0, 1]));
    assert_eq!(wire(0, AvpType::Enumerated, num(1)), bare(12, &[0, 0, 0, 1]));
    assert_eq!(wire(0, AvpType::UTF8String, text("abcd")), bare(12, b"abcd"));
}

#[test]
fn encode_kwarg_avp_rejects_grouped_with_value() {
    let dictionary = dictionary();
    let avp_def = dictionary
        .lookup_avp_by_python_name("smsmi_correlation_id")
        .expect("smsmi_correlation_id must resolve");
    let error = encode_kwarg_avp(avp_def, &text("anything"))
        .err()
        .expect("grouped AVP must reject scalar value");
    let msg = error.display();
    assert!(msg.contains("Grouped AVP"), "msg: {msg}");
}

#[test]
fn avp_name_to_snake_handles_acronyms() {
    assert_eq!(avp_name_to_snake("Session-Id"), "session_id");
    assert_eq!(avp_name_to_snake("MSISDN"), "msisdn");
    assert_eq!(avp_name_to_snake("SC-Address"), "sc_address");
    assert_eq!(avp_name_to_snake("SM-RP-UI"), "sm_rp_ui");
    assert_eq!(avp_name_to_snake("SMSMI-Correlation-ID"), "smsmi_correlation_id");
}

#[test]
fn a_request_filter_names_known_commands() {
    let dictionary = dictionary();
    assert!(validate_request_filter(&dictionary, "CCR").is_ok());
    assert!(validate_request_filter(&dictionary, "CCR|SRR").is_ok());
    assert!(validate_request_filter(&dictionary, "CCR|XXX").is_err());
}

#[test]
fn globs_match_whole_values() {
    assert!(fnmatch("mme1.epc.example.org", "mme*.epc.*"));
    assert!(fnmatch("", "*"));
    assert!(fnmatch("anything", "*"));
    assert!(fnmatch("mme", "m?e"));
    assert!(!fnmatch("mme", "m?"));
    assert!(fnmatch("plain", "plain"));
    assert!(!fnmatch("plain", "plai"));
}

#[test]
fn addresses_and_pools_are_read() {
    assert_eq!(ip_in_cidr("10.1.2.3", "10.0.0.0/8").ok(), Some(true));
    assert_eq!(ip_in_cidr("11.1.2.3", "10.0.0.0/8").ok(), Some(false));
    assert_eq!(
        ip_in_cidr("x", "10.0.0.0/8").err().unwrap().display(),
        "ValueError: bad IP: x"
    );
    assert_eq!(
        ip_in_cidr("10.0.0.1", "x").err().unwrap().display(),
        "ValueError: bad CIDR: x"
    );
    let pool = peer_pool(&list(vec![text("a"), text("b")]), None).ok().unwrap();
    assert_eq!(pool.len(), 2);
    assert_eq!(pool.tenant(), "default");
    let picked = pool
        .picked(Some(("a".to_string(), "10.0.0.1".to_string(), 3868, true)))
        .unwrap();
    assert_eq!(picked.addr(), "10.0.0.1:3868");
    assert!(picked.__bool__());
    assert!(peer_pool(&num(1), None).is_err());
}

#[test]
fn answers_become_dicts() {
    let dict = server_name_result(Some((2001, Some("scscf".to_string())))).unwrap();
    assert!(matches!(dict.get_item("result_code"), Some(PyValue::Int(2001))));
    assert!(matches!(dict.get_item("server_name"), Some(PyValue::Text(s)) if s == "scscf"));
    assert!(server_name_result(None).is_none());
    let vector = EutranVector { rand: vec![1], xres: vec![2], autn: vec![3], kasme: vec![4] };
    let dict = air_result(Some((2001, vec![vector]))).unwrap();
    match dict.get_item("vectors") {
        Some(PyValue::List(rows)) => {
            assert!(matches!(rows[0].get_item("kasme"), Some(PyValue::Bytes(b)) if *b == vec![4]));
        }
        _ => panic!("expected a list"),
    }
    let decoded = JsonValue::Object(vec![
        ("Result-Code".to_string(), JsonValue::Unsigned(2001)),
        (
            "Hosts".to_string(),
            JsonValue::Array(vec![JsonValue::Signed(-1), JsonValue::Null]),
        ),
    ]);
    let value = json_to_py(&decoded);
    assert!(matches!(value.get_item("result_code"), Some(PyValue::Int(2001))));
    assert!(matches!(value.get_item("hosts"), Some(PyValue::List(v)) if v.len() == 2));
}

fn decoded(entries: Vec<(&str, JsonValue)>) -> JsonValue {
    JsonValue::Object(entries.into_iter().map(|(k, v)| (k.to_string(), v)).collect())
}

fn string(s: &str) -> JsonValue {
    JsonValue::Text(s.to_string())
}

#[test]
fn a_decoded_answer_feeds_its_dict() {
    let server = decoded(vec![
        ("Result-Code", JsonValue::Unsigned(2001)),
        ("Server-Name", string("sip:scscf.example.com")),
    ]);
    assert_eq!(extract_result_code(&server), 2001);
    assert_eq!(required_str(&server, "Server-Name").as_deref(), Some("sip:scscf.example.com"));
    assert_eq!(server_name_answer(&server), (2001, Some("sip:scscf.example.com".to_string())));
    let lir = ClientCall::Lir { public_identity: "sip:alice@example.com".to_string() };
    let dict = answer_result(&lir, &server).unwrap();
    assert!(matches!(dict.get_item("result_code"), Some(PyValue::Int(2001))));
    assert!(
        matches!(dict.get_item("server_name"), Some(PyValue::Text(s)) if s == "sip:scscf.example.com")
    );

    let data = decoded(vec![
        ("User-Data", string("3c612f3e")),
        ("User-Data-Sh", string("<b/>")),
    ]);
    assert_eq!(extract_result_code(&data), 0);
    assert_eq!(octet_string_as_utf8(&data, "User-Data").as_deref(), Some("<a/>"));
    assert_eq!(octet_string_as_utf8(&data, "Absent"), None);
    assert_eq!(user_data_answer(&data), (0, Some("<a/>".to_string())));
    assert_eq!(sh_user_data_answer(&data), (0, Some("<b/>".to_string())));
    let sar = ClientCall::Sar {
        public_identity: "sip:alice@example.com".to_string(),
        server_name: "sip:scscf.example.com".to_string(),
        assignment_type: 1,
    };
    let dict = answer_result(&sar, &data).unwrap();
    assert!(matches!(dict.get_item("user_data"), Some(PyValue::Text(s)) if s == "<a/>"));
    assert!(matches!(dict.get_item("result_code"), Some(PyValue::Int(0))));
    assert_eq!(octet_string_as_utf8(&decoded(vec![("X", string("ff"))]), "X"), None);
}

fn no_ims() -> ImsArgs {
    ImsArgs {
        calling_party: None,
        called_party: None,
        sip_method: None,
        role_of_node: None,
        node_functionality: None,
        ims_charging_identifier: None,
        user_session_id: None,
        originating_ioi: None,
        terminating_ioi: None,
        application_server: None,
        application_provided_called_party_address: None,
        incoming_trunk_group_id: None,
        outgoing_trunk_group_id: None,
        visited_network_id: None,
        cause_code: None,
    }
}

fn no_sms() -> SmsArgs {
    SmsArgs {
        originator_address: None,
        recipient_address: None,
        originator_sccp_address: None,
        recipient_sccp_address: None,
        sm_message_type: None,
        reply_path_requested: None,
        sm_user_data_header: None,
        sm_service_type: None,
        sms_node: None,
        sm_discharge_time: None,
        number_of_messages_sent: None,
        client_address: None,
        data_coding_scheme: None,
        sms_result: None,
        sm_protocol_id: None,
        sm_status: None,
        application_port_identifier: None,
        external_identifier: None,
        sm_device_trigger_indicator: None,
        mtc_iwf_address: None,
    }
}

fn rf(ims: ImsArgs, sms: SmsArgs) -> RfArgs {
    RfArgs { ims, sms, user_name: None, service_context_id: None }
}

#[test]
fn envelopes_are_built_only_from_their_own_arguments() {
    assert!(build_ims_data(&no_ims()).ok().unwrap().is_none());
    let ims = ImsArgs {
        calling_party: Some("sip:a@x".to_string()),
        role_of_node: Some("originating".to_string()),
        node_functionality: Some("as".to_string()),
        originating_ioi: Some("home".to_string()),
        ..no_ims()
    };
    let data = build_ims_data(&ims).ok().unwrap().unwrap();
    assert_eq!(data.calling_party.as_deref(), Some("sip:a@x"));
    assert!(data.role_of_node == Some(NodeRole::Originating));
    assert!(data.node_functionality == NodeFunctionality::from_str_ci("AS"));
    assert!(build_sms_data(&no_sms(), &ims).ok().unwrap().is_none());
    let sms = SmsArgs { sms_result: Some(0), ..no_sms() };
    let envelope = build_sms_data(&sms, &ims).ok().unwrap().unwrap();
    assert_eq!(envelope.originating_ioi.as_deref(), Some("home"));
    let bad = ImsArgs { role_of_node: Some("nobody".to_string()), ..no_ims() };
    assert!(build_ims_data(&bad).is_err());
    assert!(parse_optional_ip("client_address", &Some("x".to_string())).is_err());
    assert!(parse_optional_ip("client_address", &None).ok().unwrap().is_none());
}

#[test]
fn records_of_a_session_are_numbered() {
    let args = rf(no_ims(), no_sms());
    let start = rf_acr_start(true, &args).ok().unwrap().unwrap();
    assert!(start.record_type == AccountingRecordType::StartRecord);
    assert_eq!((start.record_number, start.session_id), (0, None));
    let interim = rf_acr_interim(true, "s", 3, &args).ok().unwrap().unwrap();
    assert!(interim.record_type == AccountingRecordType::InterimRecord);
    assert_eq!(interim.record_number, 3);
    assert_eq!(interim.session_id.as_deref(), Some("s"));
    let stop = rf_acr_stop(true, "s", 4, 1, &args).ok().unwrap().unwrap();
    assert!(stop.record_type == AccountingRecordType::StopRecord);
    assert_eq!(stop.termination_cause, Some(1));
    let event = rf_acr_event(true, &args).ok().unwrap().unwrap();
    assert!(event.record_type == AccountingRecordType::EventRecord);
    assert!(rf_acr_event(false, &args).ok().unwrap().is_none());
    let answer = AccountingAnswer {
        result_code: 2001,
        session_id: None,
        record_number: Some(3),
        interim_interval: None,
    };
    let dict = accounting_answer_to_dict(Some(answer), Some("s")).unwrap();
    assert!(matches!(dict.get_item("session_id"), Some(PyValue::Text(s)) if s == "s"));
    assert!(matches!(dict.get_item("record_number"), Some(PyValue::Int(3))));
    assert!(matches!(dict.get_item("interim_interval"), Some(PyValue::Nothing)));
}
