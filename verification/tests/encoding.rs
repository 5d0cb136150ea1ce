//! Text, addresses and byte encodings.

use siphon::base64::{base64_decode, base64_encode};
use siphon::bytes::to_be;
use siphon::diameter::codec::{Avp, DiameterMsg};
use siphon::digest::parse_algorithm;
use siphon::hash::DigestAlgorithm;
use siphon::hex::{hex_decode, hex_encode};
use siphon::ipsec::{IpsecConfig, PyAuthVectorHandle, PyIpsec, PyTransform};
use siphon::net::{IpAddr, IpNetwork, SocketAddr};
use siphon::sec_agree::PySecurityOffer;
use siphon::sip::{Header, Headers};
use siphon::text::decimal_text;

#[test]
fn base64_follows_the_published_vectors() {
    for (plain, coded) in [
        ("", ""),
        ("f", "Zg=="),
        ("fo", "Zm8="),
        ("foo", "Zm9v"),
        ("foob", "Zm9vYg=="),
        ("fooba", "Zm9vYmE="),
        ("foobar", "Zm9vYmFy"),
    ] {
        assert_eq!(base64_encode(plain.as_bytes()), coded);
        assert_eq!(base64_decode(coded).unwrap(), plain.as_bytes());
    }
    assert!(base64_decode("Zg=!").is_none());
}

#[test]
fn hex_and_big_endian_round_trip() {
    let bytes: Vec<u8> = (0..=255).collect();
    assert_eq!(hex_decode(&hex_encode(&bytes)), Some(bytes));
    assert_eq!(to_be(0x0102, 4), vec![0, 0, 1, 2]);
    assert_eq!(decimal_text(0), "0");
    assert_eq!(decimal_text(u64::MAX), "18446744073709551615");
}

#[test]
fn addresses_are_read_and_written() {
    let v4 = IpAddr::parse("192.0.2.1").unwrap();
    assert_eq!(v4.render(), "192.0.2.1");
    assert!(!v4.is_ipv6());
    let v6 = IpAddr::parse("2001:DB8:0:0::1").unwrap();
    assert_eq!(v6.render(), "2001:db8::1");
    assert!(IpAddr::parse("192.0.2").is_none());
    let socket = SocketAddr::parse("[2001:db8::1]:5060").unwrap();
    assert_eq!(socket.render(), "[2001:db8::1]:5060");
    assert_eq!(SocketAddr::parse("192.0.2.1:5060").unwrap().port, 5060);
    assert!(SocketAddr::parse("192.0.2.1").is_none());
    let network = IpNetwork::parse("192.0.2.0/24").unwrap();
    assert!(network.contains(&v4));
    assert!(!network.contains(&v6));
    assert!(!network.contains(&IpAddr::parse("192.0.3.1").unwrap()));
    assert!(IpNetwork::parse("192.0.2.0/33").is_none());
}

#[test]
fn headers_are_found_whatever_their_case() {
    let mut headers = Headers::new();
    headers.append(Header::plain("Subject", "one"));
    headers.append(Header::plain("Via", "a"));
    assert_eq!(headers.get("SUBJECT").as_deref(), Some("one"));
    headers.set(Header::plain("subject", "two"));
    assert_eq!(headers.get("Subject").as_deref(), Some("two"));
    headers.remove("SuBjEcT");
    assert!(headers.get("Subject").is_none());
    assert_eq!(headers.get("Via").as_deref(), Some("a"));
}

#[test]
fn names_are_matched_in_any_case_and_quoted_in_messages() {
    assert!(parse_algorithm(Some("sha_512_256")) == DigestAlgorithm::Sha512_256);
    assert!(parse_algorithm(Some("md5-sess")) == DigestAlgorithm::Md5Sess);
    assert!(parse_algorithm(Some("whirlpool")) == DigestAlgorithm::Md5);
    let offer = PySecurityOffer {
        mechanism: "ipsec-3gpp".to_string(),
        alg: "HMAC-SHA-1-96".to_string(),
        ealg: "AES-CBC".to_string(),
        spi_c: 1,
        spi_s: 2,
        port_c: 3,
        port_s: 4,
        ue_addr: "10.0.0.1".to_string(),
    };
    assert!(PyTransform::HmacSha1_96AesCbc128.compatible_with(&offer));
    let config = IpsecConfig { pcscf_port_c: 5064, pcscf_port_s: 5066, path_host: None };
    let ipsec = PyIpsec::new(config, None, None);
    let mut keys = PyAuthVectorHandle::new([1; 16], [2; 16]);
    let error = ipsec
        .allocate(&mut keys, &offer, PyTransform::HmacMd5_96Null, None, None)
        .err()
        .unwrap();
    assert_eq!(
        error.display(),
        "ValueError: transform HmacMd5_96Null not compatible with offer alg=\"HMAC-SHA-1-96\" ealg=\"AES-CBC\""
    );
    assert!(keys.take().is_some(), "a refused allocation keeps the keys");
}

#[test]
fn bytes_that_are_no_text_are_replaced() {
    let message = DiameterMsg {
        flags: 0,
        command_code: 1,
        application_id: 2,
        hop_by_hop: 3,
        end_to_end: 4,
        avps: vec![Avp::raw(1, 0, vec![b'a', 0xff, b'b']), Avp::raw(2, 0, "ü".as_bytes().to_vec())],
    };
    assert_eq!(message.get_str(1).as_deref(), Some("a\u{fffd}b"));
    assert_eq!(message.get_str(2).as_deref(), Some("ü"));
}
