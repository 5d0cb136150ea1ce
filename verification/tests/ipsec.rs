//! Security agreement and security associations.

use std::mem::needs_drop;

use siphon::hex::{hex_decode, hex_encode};
use siphon::ipsec::{
    cleaned_up, format_params_protocol, find_sa_for_ue, is_protected_local_port, outbound_endpoint_for_sa,
    outbound_for, outbound_for_sa, outbound_local_addr_for, parse_allocate_protocol,
    pcscf_path_host, repin_sa_for_ue, ActivateCalls, AuthVectorBytes, EncryptionAlgorithm, IntegrityAlgorithm,
    IpsecConfig, PendingState, PyAuthVectorHandle, PyIpsec, PyPendingSA, PySAHandle,
    PySecurityServerParams, PyTransform, SaKey, SaProtocol, SaRole, SecurityAssociationPair, Transport,
    Unstashed, STASH_TTL,
};
use siphon::net::{IpAddr, SocketAddr};
use siphon::sec_agree::{
    parse_hex_param, parse_security_client, parse_security_client_multi, split_top_level_commas,
    strip_ck_ik, PySecurityOffer,
};

fn ip(text: &str) -> IpAddr {
    IpAddr::parse(text).unwrap()
}

#[test]
fn split_top_level_commas_respects_quotes() {
    let value = r#"realm="ims, example", nonce="abc", qop="auth""#;
    let parts = split_top_level_commas(value);
    assert_eq!(parts.len(), 3);
    assert_eq!(parts[0].trim(), r#"realm="ims, example""#);
    assert_eq!(parts[1].trim(), r#"nonce="abc""#);
    assert_eq!(parts[2].trim(), r#"qop="auth""#);
}

#[test]
fn split_top_level_commas_handles_escaped_quote() {
    let value = r#"a="x\"y", b=2"#;
    let parts = split_top_level_commas(value);
    assert_eq!(parts.len(), 2);
    assert_eq!(parts[0].trim(), r#"a="x\"y""#);
    assert_eq!(parts[1].trim(), "b=2");
}

#[test]
fn parse_hex_param_quoted_and_bare() {
    let bytes = parse_hex_param("\"0123456789abcdef0123456789abcdef\"").unwrap();
    assert_eq!(bytes[0], 0x01);
    assert_eq!(bytes[15], 0xef);
    let bytes2 = parse_hex_param("0123456789ABCDEF0123456789ABCDEF").unwrap();
    assert_eq!(bytes, bytes2);
}

#[test]
fn parse_hex_param_rejects_wrong_length() {
    assert!(parse_hex_param("abc").is_none());
    assert!(parse_hex_param("\"00\"").is_none());
}

fn config() -> IpsecConfig {
    IpsecConfig { pcscf_port_c: 5064, pcscf_port_s: 5066, path_host: None }
}

#[test]
fn pcscf_addr_for_selects_by_ue_family() {
    let v4 = ip("192.0.2.10");
    let v6 = ip("2001:db8::10");
    let dual = PyIpsec::new(config(), Some(v4), Some(v6));
    assert_eq!(dual.pcscf_addr_for(false), Some(v4));
    assert_eq!(dual.pcscf_addr_for(true), Some(v6));
    let v4_only = PyIpsec::new(config(), Some(v4), None);
    assert_eq!(v4_only.pcscf_addr_for(false), Some(v4));
    assert_eq!(v4_only.pcscf_addr_for(true), None);
}

#[test]
fn strip_ck_ik_basic_extraction() {
    let header = r#"Digest realm="ims.example.com", nonce="abc", algorithm=AKAv1-MD5, ck="0123456789abcdef0123456789abcdef", ik="fedcba9876543210fedcba9876543210", qop="auth""#;
    let (rewritten, parsed) = strip_ck_ik(header);
    let (ck, ik) = parsed.expect("expected ck+ik to parse");
    assert_eq!(ck[0], 0x01);
    assert_eq!(ik[0], 0xfe);
    assert!(!rewritten.contains("ck="));
    assert!(!rewritten.contains("ik="));
    assert!(rewritten.contains(r#"realm="ims.example.com""#));
    assert!(rewritten.contains(r#"nonce="abc""#));
    assert!(rewritten.contains(r#"qop="auth""#));
    assert!(rewritten.starts_with("Digest "));
}

#[test]
fn strip_ck_ik_idempotent_after_strip() {
    let header = r#"Digest realm="ims.example.com", nonce="abc", ck="0123456789abcdef0123456789abcdef", ik="fedcba9876543210fedcba9876543210""#;
    let (first, parsed1) = strip_ck_ik(header);
    assert!(parsed1.is_some());
    let (second, parsed2) = strip_ck_ik(&first);
    assert_eq!(first, second);
    assert!(parsed2.is_none());
}

#[test]
fn strip_ck_ik_missing_ik_returns_none_and_preserves_input() {
    let header = r#"Digest realm="x", nonce="y", ck="0123456789abcdef0123456789abcdef""#;
    let (out, parsed) = strip_ck_ik(header);
    assert!(parsed.is_none());
    assert_eq!(out, header);
}

#[test]
fn strip_ck_ik_missing_ck_returns_none_and_preserves_input() {
    let header = r#"Digest realm="x", nonce="y", ik="0123456789abcdef0123456789abcdef""#;
    let (out, parsed) = strip_ck_ik(header);
    assert!(parsed.is_none());
    assert_eq!(out, header);
}

#[test]
fn strip_ck_ik_preserves_quoted_commas_in_realm() {
    let header = r#"Digest realm="ims, example", nonce="abc", ck="0123456789abcdef0123456789abcdef", ik="fedcba9876543210fedcba9876543210""#;
    let (rewritten, parsed) = strip_ck_ik(header);
    assert!(parsed.is_some());
    assert!(rewritten.contains(r#"realm="ims, example""#));
}

#[test]
fn strip_ck_ik_takes_every_key_out() {
    let key = "00112233445566778899aabbccddeeff";
    let value = format!(
        "Digest ck=bad , realm=\"a, b\",CK=\"{key}\",, qop=auth, Ik = {key}, opaque"
    );
    let (rest, keys) = strip_ck_ik(&value);
    assert_eq!(rest, "Digest realm=\"a, b\", qop=auth, opaque");
    assert!(keys.is_some());
    let swapped = format!("Digest ck={key}, ik={key}, ck=bad");
    assert_eq!(strip_ck_ik(&swapped), (swapped.clone(), None));
}

#[test]
fn strip_ck_ik_handles_no_quotes() {
    let header = "Digest realm=x, nonce=y, ck=0123456789abcdef0123456789abcdef, ik=fedcba9876543210fedcba9876543210";
    let (rewritten, parsed) = strip_ck_ik(header);
    let (ck, ik) = parsed.expect("expected ck+ik to parse");
    assert_eq!(ck[0], 0x01);
    assert_eq!(ik[0], 0xfe);
    assert_eq!(rewritten, "Digest realm=x, nonce=y");
}

#[test]
fn strip_ck_ik_uppercase_param_names_recognized() {
    let header = r#"Digest realm="x", nonce="y", CK="0123456789abcdef0123456789abcdef", IK="fedcba9876543210fedcba9876543210""#;
    let (_rewritten, parsed) = strip_ck_ik(header);
    assert!(parsed.is_some());
}

#[test]
fn parse_security_client_multi_single_offer() {
    let header =
        "ipsec-3gpp; alg=hmac-sha-1-96; spi-c=11111; spi-s=22222; port-c=5060; port-s=5062";
    let offers = parse_security_client_multi(header, "10.0.0.1");
    assert_eq!(offers.len(), 1);
    assert_eq!(offers[0].mechanism, "ipsec-3gpp");
    assert_eq!(offers[0].alg, "hmac-sha-1-96");
    assert_eq!(offers[0].spi_c, 11111);
    assert_eq!(offers[0].ue_addr, "10.0.0.1");
}

#[test]
fn parse_security_client_multi_two_offers() {
    let header = "ipsec-3gpp; alg=hmac-md5-96; spi-c=11111; spi-s=22222; port-c=5060; port-s=5062, ipsec-3gpp; alg=hmac-sha-1-96; spi-c=33333; spi-s=44444; port-c=5063; port-s=5064";
    let offers = parse_security_client_multi(header, "10.0.0.1");
    assert_eq!(offers.len(), 2);
    assert_eq!(offers[0].alg, "hmac-md5-96");
    assert_eq!(offers[0].spi_c, 11111);
    assert_eq!(offers[1].alg, "hmac-sha-1-96");
    assert_eq!(offers[1].spi_c, 33333);
}

#[test]
fn parse_security_client_multi_skips_malformed_subsection() {
    let header = "junk-without-required-params, ipsec-3gpp; alg=hmac-sha-1-96; spi-c=1; spi-s=2; port-c=3; port-s=4";
    let offers = parse_security_client_multi(header, "10.0.0.1");
    assert_eq!(offers.len(), 1);
    assert_eq!(offers[0].spi_c, 1);
    assert!(parse_security_client("junk").is_none());
}

fn offer(ealg: &str) -> PySecurityOffer {
    PySecurityOffer {
        mechanism: "ipsec-3gpp".into(),
        alg: "hmac-sha-1-96".into(),
        ealg: ealg.into(),
        spi_c: 1,
        spi_s: 2,
        port_c: 3,
        port_s: 4,
        ue_addr: "10.0.0.1".into(),
    }
}

#[test]
fn transform_compatible_with_matches_alg() {
    let offer = offer("null");
    assert!(PyTransform::HmacSha1_96Null.compatible_with(&offer));
    assert!(!PyTransform::HmacMd5_96Null.compatible_with(&offer));
}

#[test]
fn transform_compatible_with_treats_empty_ealg_as_null() {
    assert!(PyTransform::HmacSha1_96Null.compatible_with(&offer("")));
    assert!(!PyTransform::HmacSha1_96AesCbc128.compatible_with(&offer("")));
}

#[test]
fn auth_vector_handle_take_consumes() {
    let mut handle = PyAuthVectorHandle::new([1u8; 16], [2u8; 16]);
    assert!(handle.take().is_some());
    assert!(handle.take().is_none());
    assert_eq!(handle.__repr__(), "AuthVectorHandle(<consumed>)");
}

#[test]
fn auth_vector_bytes_zeroize_on_drop() {
    let mut bytes = AuthVectorBytes { ck: [0xab; 16], ik: [0xcd; 16] };
    bytes.wipe();
    assert_eq!(bytes.ck, [0; 16]);
    assert_eq!(bytes.ik, [0; 16]);
    let bytes = AuthVectorBytes { ck: [0xab; 16], ik: [0xcd; 16] };
    assert!(needs_drop::<AuthVectorBytes>());
    drop(bytes);
}

#[test]
fn a_refused_delete_is_an_error() {
    assert!(cleaned_up(Ok(())).is_ok());
    let error = cleaned_up(Err("no such process".to_string())).err().unwrap();
    assert_eq!(error.display(), "RuntimeError: delete_sa_pair failed: no such process");
}

#[test]
fn hex_encode_round_trip() {
    let bytes = [0x00u8, 0x01, 0xff, 0xab];
    assert_eq!(hex_encode(&bytes), "0001ffab");
    assert_eq!(hex_decode("0001FFab"), Some(bytes.to_vec()));
    assert_eq!(hex_decode("0g"), None);
    assert_eq!(hex_decode("0"), None);
}

fn params(spi: u32, protocol: &str) -> PySecurityServerParams {
    PySecurityServerParams {
        mechanism: "ipsec-3gpp".into(),
        alg: "hmac-sha-1-96".into(),
        ealg: "null".into(),
        spi_c: spi,
        spi_s: spi + 1,
        port_c: 5064,
        port_s: 5066,
        protocol: protocol.into(),
    }
}

#[test]
fn security_server_params_carries_protocol() {
    let params = params(10000, "tcp");
    assert_eq!(params.protocol, "tcp");
    assert!(params.__repr__().contains("protocol=\"tcp\""));
}

fn ipsec_test_sa() -> SecurityAssociationPair {
    SecurityAssociationPair {
        ue_addr: ip("10.0.0.1"),
        pcscf_addr: ip("10.0.0.10"),
        ue_port_c: 50000,
        ue_port_s: 50001,
        pcscf_port_c: 5064,
        pcscf_port_s: 5066,
        spi_uc: 1000,
        spi_us: 1001,
        spi_pc: 10000,
        spi_ps: 10001,
        ealg: EncryptionAlgorithm::Null,
        aalg: IntegrityAlgorithm::HmacSha1,
        encryption_key: String::new(),
        integrity_key: "deadbeefdeadbeefdeadbeefdeadbeef".into(),
        hard_lifetime_secs: None,
        protocol: SaProtocol::Udp,
        role: SaRole::PCscf,
    }
}

fn pinned(protocol: SaProtocol) -> SecurityAssociationPair {
    SecurityAssociationPair { protocol, ..ipsec_test_sa() }
}

fn local(sa: &SecurityAssociationPair, port: u16) -> SocketAddr {
    SocketAddr { ip: sa.pcscf_addr, port }
}

#[test]
fn sa_handle_protocol_surfaces_any_for_dual_transport_sa() {
    let handle = PySAHandle::from_sa(&pinned(SaProtocol::Any));
    assert_eq!(handle.protocol, "any");
}

#[test]
fn parse_allocate_protocol_defaults_to_any_for_none() {
    assert_eq!(parse_allocate_protocol(None).unwrap(), SaProtocol::Any);
}

#[test]
fn parse_allocate_protocol_accepts_explicit_pins() {
    assert_eq!(parse_allocate_protocol(Some("udp")).unwrap(), SaProtocol::Udp);
    assert_eq!(parse_allocate_protocol(Some("tcp")).unwrap(), SaProtocol::Tcp);
    assert_eq!(parse_allocate_protocol(Some("any")).unwrap(), SaProtocol::Any);
    assert_eq!(parse_allocate_protocol(Some("UDP")).unwrap(), SaProtocol::Udp);
    assert_eq!(parse_allocate_protocol(Some("TCP")).unwrap(), SaProtocol::Tcp);
    assert_eq!(parse_allocate_protocol(Some("Any")).unwrap(), SaProtocol::Any);
}

#[test]
fn parse_allocate_protocol_rejects_garbage() {
    let error = parse_allocate_protocol(Some("sctp")).unwrap_err();
    assert!(error.contains("'udp', 'tcp', 'any'"));
    assert!(error.contains("sctp"));
}

#[test]
fn format_params_protocol_collapses_any_to_udp_for_wire() {
    assert_eq!(format_params_protocol(SaProtocol::Any), "udp");
    assert_eq!(format_params_protocol(SaProtocol::Udp), "udp");
    assert_eq!(format_params_protocol(SaProtocol::Tcp), "tcp");
}

fn pending(ue: &str, lifetime: Option<u64>) -> PyPendingSA {
    let sa = SecurityAssociationPair {
        ue_addr: ip(ue),
        hard_lifetime_secs: lifetime,
        ..ipsec_test_sa()
    };
    PyPendingSA::new(sa, params(10000, "udp"))
}

#[test]
fn activate_with_hard_lifetime_secs_updates_cached_sa() {
    let mut pending = pending("10.0.0.1", Some(600_000));
    let calls = pending
        .activate(Some(3632))
        .expect("activate must accept hard_lifetime_secs kwarg");
    assert_eq!(calls.repin, Some(3632));
    assert_eq!(calls.teardown, Some(SaKey { ue_addr: ip("10.0.0.1"), ue_port_c: 50000 }));
    assert_eq!(pending.state(), PendingState::Active);
    assert_eq!(
        pending.sa().hard_lifetime_secs,
        Some(3632),
        "cached SA should reflect the tightened hard-lifetime in-line"
    );
}

#[test]
fn activate_without_kwarg_preserves_cached_lifetime() {
    let mut pending = pending("10.0.0.2", Some(600_000));
    assert_eq!(pending.supersedes(), None);
    let calls = pending.activate(None).unwrap();
    assert_eq!(calls, ActivateCalls { repin: None, teardown: None }, "no kernel work is due");
    assert_eq!(pending.state(), PendingState::Active);
    assert_eq!(
        pending.sa().hard_lifetime_secs,
        Some(600_000),
        "cached SA lifetime must be untouched when kwarg omitted"
    );
    let again = pending.activate(None).unwrap();
    assert_eq!(again, ActivateCalls { repin: None, teardown: None });
    assert_eq!(pending.sa().hard_lifetime_secs, Some(600_000));
    let key = SaKey { ue_addr: ip("10.0.0.2"), ue_port_c: 50000 };
    assert_eq!(pending.supersedes(), Some(key));
}

#[test]
fn activate_after_cleanup_rejects_lifetime_kwarg() {
    let mut pending = pending("10.0.0.3", None);
    assert!(pending.cleanup().is_some());
    assert!(pending.cleanup().is_none());
    assert!(pending.is_cleaned());
    assert!(pending.activate(Some(3632)).is_err());
    assert!(pending.activate(None).is_err());
    assert!(pending.is_cleaned());
    assert_eq!(pending.supersedes(), None);
}

#[test]
fn sa_handle_reflects_security_association_protocol() {
    let handle = PySAHandle::from_sa(&pinned(SaProtocol::Tcp));
    assert_eq!(handle.protocol, "tcp");
    assert!(handle.__repr__().contains("protocol=\"tcp\""));
}

#[test]
fn outbound_endpoint_picks_pcscf_port_c_for_mt_request() {
    let sa = ipsec_test_sa();
    assert_eq!(
        outbound_endpoint_for_sa(&sa, sa.ue_port_s),
        Some(local(&sa, sa.pcscf_port_c)),
        "MT request to ue_port_s must egress from pcscf_port_c (SA #3)"
    );
}

#[test]
fn outbound_endpoint_picks_pcscf_port_s_for_response_to_mo() {
    let sa = ipsec_test_sa();
    assert_eq!(
        outbound_endpoint_for_sa(&sa, sa.ue_port_c),
        Some(local(&sa, sa.pcscf_port_s)),
        "request to ue_port_c must egress from pcscf_port_s (SA #2)"
    );
}

#[test]
fn outbound_endpoint_returns_none_for_unknown_port() {
    assert!(outbound_endpoint_for_sa(&ipsec_test_sa(), 9999).is_none());
}

#[test]
fn outbound_endpoint_distinguishes_close_ports() {
    let sa = ipsec_test_sa();
    let from_us = outbound_endpoint_for_sa(&sa, sa.ue_port_s).unwrap();
    let from_uc = outbound_endpoint_for_sa(&sa, sa.ue_port_c).unwrap();
    assert_ne!(
        from_us.port, from_uc.port,
        "SA #3 and SA #2 must not collapse onto the same source port"
    );
    assert_eq!(from_us.port, sa.pcscf_port_c);
    assert_eq!(from_uc.port, sa.pcscf_port_s);
}

#[test]
fn outbound_for_sa_returns_udp_transport_for_udp_protocol() {
    let sa = pinned(SaProtocol::Udp);
    let (source, transport) = outbound_for_sa(&sa, sa.ue_port_s, Transport::Tcp).unwrap();
    assert_eq!(source, local(&sa, sa.pcscf_port_c));
    assert_eq!(transport, Transport::Udp);
}

#[test]
fn outbound_for_sa_returns_tcp_transport_for_tcp_protocol() {
    let sa = pinned(SaProtocol::Tcp);
    let (source, transport) = outbound_for_sa(&sa, sa.ue_port_s, Transport::Udp).unwrap();
    assert_eq!(source, local(&sa, sa.pcscf_port_c));
    assert_eq!(transport, Transport::Tcp);
}

#[test]
fn outbound_for_sa_returns_tcp_for_response_direction_too() {
    let sa = pinned(SaProtocol::Tcp);
    let (source, transport) = outbound_for_sa(&sa, sa.ue_port_c, Transport::Udp).unwrap();
    assert_eq!(source, local(&sa, sa.pcscf_port_s));
    assert_eq!(transport, Transport::Tcp);
}

#[test]
fn outbound_for_sa_preserves_caller_transport_for_any_protocol() {
    let sa = pinned(SaProtocol::Any);
    let (source, transport) = outbound_for_sa(&sa, sa.ue_port_s, Transport::Udp).unwrap();
    assert_eq!(source, local(&sa, sa.pcscf_port_c));
    assert_eq!(transport, Transport::Udp);
    let (_, transport_tcp) = outbound_for_sa(&sa, sa.ue_port_s, Transport::Tcp).unwrap();
    assert_eq!(transport_tcp, Transport::Tcp);
}

#[test]
fn outbound_for_sa_returns_none_when_endpoint_unresolved() {
    assert!(outbound_for_sa(&ipsec_test_sa(), 9999, Transport::Udp).is_none());
}

#[test]
fn outbound_local_addr_for_returns_none_without_manager() {
    let dst = SocketAddr::parse("10.0.0.99:50001").unwrap();
    assert!(outbound_local_addr_for(None, dst).is_none());
}

#[test]
fn an_active_association_is_found_by_either_port() {
    let sas = vec![ipsec_test_sa()];
    let to = |port: u16| SocketAddr { ip: ip("10.0.0.1"), port };
    assert_eq!(
        outbound_local_addr_for(Some(&sas), to(50001)),
        Some(local(&sas[0], 5064))
    );
    assert_eq!(
        outbound_for(Some(&sas), to(50000), Transport::Tls),
        Some((local(&sas[0], 5066), Transport::Udp))
    );
    assert!(find_sa_for_ue(Some(&sas), &ip("10.0.0.1"), 50000).is_some());
    assert!(find_sa_for_ue(Some(&sas), &ip("10.0.0.2"), 50000).is_none());
    let (key, lifetime) = repin_sa_for_ue(Some(&sas), &ip("10.0.0.1"), 50001, 99).unwrap();
    assert_eq!((key.ue_port_c, lifetime), (50000, 99));
    assert!(is_protected_local_port(Some(&config()), 5066));
    assert!(!is_protected_local_port(Some(&config()), 5060));
    assert!(!is_protected_local_port(None, 5066));
    let named = IpsecConfig { path_host: Some("pcscf.example".to_string()), ..config() };
    assert_eq!(pcscf_path_host(Some(&named)).as_deref(), Some("pcscf.example"));
}

#[test]
fn an_allocation_consumes_the_keys_and_keeps_to_one_family() {
    let ipsec = PyIpsec::new(config(), Some(ip("192.0.2.10")), None);
    let mut av = PyAuthVectorHandle::new([1; 16], [2; 16]);
    let allocation = ipsec
        .allocate(&mut av, &offer("null"), PyTransform::HmacSha1_96Null, Some(600), None)
        .ok()
        .unwrap();
    assert!(av.take().is_none());
    let pending = allocation.complete(7, 8, &None, Ok(())).ok().unwrap();
    assert_eq!(pending.sa().spi_pc, 7);
    assert_eq!(pending.sa().pcscf_addr, ip("192.0.2.10"));
    assert_eq!(pending.security_server_params().protocol, "udp");
    let v6 = PySecurityOffer { ue_addr: "2001:db8::1".to_string(), ..offer("null") };
    let mut av = PyAuthVectorHandle::new([1; 16], [2; 16]);
    assert!(ipsec
        .allocate(&mut av, &v6, PyTransform::HmacSha1_96Null, None, None)
        .is_err());
}

#[test]
fn a_refresh_installs_the_derived_key_and_keeps_the_selectors() {
    let before = SecurityAssociationPair {
        aalg: IntegrityAlgorithm::HmacSha256,
        ealg: EncryptionAlgorithm::AesCbc128,
        ..ipsec_test_sa()
    };
    let mut pending = PyPendingSA::new(before, params(10000, "udp"));
    let mut av = PyAuthVectorHandle::new([0x11; 16], [0x22; 16]);
    assert_eq!(av.integrity_key(), Some(vec![0x22; 16]));
    let sa = pending.refresh(&mut av, &Some(vec![0x33; 32])).ok().unwrap();
    assert_eq!(sa.integrity_key, "33".repeat(32));
    assert_eq!(sa.encryption_key, "11".repeat(16));
    assert_eq!((sa.spi_uc, sa.spi_us, sa.spi_pc, sa.spi_ps), (1000, 1001, 10000, 10001));
    assert_eq!((sa.ue_port_c, sa.ue_port_s), (50000, 50001));
    assert!(av.take().is_none());
    assert_eq!(av.integrity_key(), None);
    assert!(pending.refresh(&mut av, &None).is_err());
    assert!(pending.complete_refresh(sa, Ok(())).is_ok());
    assert_eq!(pending.sa().integrity_key, "33".repeat(32));

    let mut av = PyAuthVectorHandle::new([0x44; 16], [0x55; 16]);
    let raw = pending.refresh(&mut av, &None).ok().unwrap();
    assert_eq!(raw.integrity_key, "55".repeat(16));
    assert!(pending.complete_refresh(raw, Err("kernel".to_string())).is_err());
    assert_eq!(pending.sa().integrity_key, "33".repeat(32));

    assert!(pending.cleanup().is_some());
    let mut av = PyAuthVectorHandle::new([0x44; 16], [0x55; 16]);
    assert!(pending.refresh(&mut av, &None).is_err());
    assert!(av.take().is_none(), "the handle is consumed whatever comes of it");
}

#[test]
fn a_refresh_without_encryption_installs_no_encryption_key() {
    let pending = PyPendingSA::new(ipsec_test_sa(), params(10000, "udp"));
    let mut av = PyAuthVectorHandle::new([0x11; 16], [0x22; 16]);
    let sa = pending.refresh(&mut av, &None).ok().unwrap();
    assert_eq!(sa.encryption_key, "");
    assert_eq!(sa.integrity_key, "22".repeat(16));
}

#[test]
fn a_stashed_association_comes_back_before_its_time_is_over() {
    let mut ipsec = PyIpsec::new(config(), None, None);
    assert_eq!(ipsec.stash("call-1", 7, 0), None);
    assert_eq!(ipsec.stash("call-1", 8, 0), Some(7));
    assert_eq!(ipsec.stash_size(), 1);
    assert_eq!(ipsec.unstash("call-1", STASH_TTL - 1), Unstashed::Found(8));
    assert_eq!(ipsec.unstash("call-1", STASH_TTL - 1), Unstashed::Unknown);
    ipsec.stash("call-2", 9, 0);
    assert_eq!(ipsec.expire_stashed("call-2", STASH_TTL - 1), None);
    assert_eq!(ipsec.expire_stashed("call-2", STASH_TTL), Some(9));
    assert_eq!(ipsec.stash_size(), 0);
}
