//! Digest authentication.

use siphon::auth::aka::{extract_resync, AkaStep, AkaVector, ImsStep, MaaAnswer};
use siphon::auth::{
    credential_from_response, digest_records, AkaCredential, AuthBackendType, BanRecord,
    HttpAuthConfig, PyAuth, RealmUsers,
};
use siphon::base64::{base64_decode, base64_encode};
use siphon::digest::{
    extract_digest_param, extract_nonce_field, extract_sip_uri, extract_username,
    extract_username_from_uri, md5_ha1_aka, md5_hex, parse_algorithm, password_ha1,
};
use siphon::hash::{hash_hex, DigestAlgorithm};
use siphon::net::IpAddr;
use siphon::request::{PyRequest, RequestAction};
use siphon::sip::{Header, Headers, SipMessage, SipUri, StartLine};
use siphon::timed_map::is_cache_fresh;
use siphon::vectors::{AuthVectorStore, ImsAuthVector};

const SECOND: u64 = 1_000_000_000;

fn make_auth() -> PyAuth {
    PyAuth::new(
        vec![RealmUsers {
            realm: "example.com".to_string(),
            users: vec![
                ("alice".to_string(), "pass123".to_string()),
                ("bob".to_string(), "secret".to_string()),
            ],
        }],
        "example.com".to_string(),
    )
}

fn register(extra: Option<(&str, &str)>) -> PyRequest {
    let mut headers = Headers::new();
    headers.append(Header::plain("Via", "SIP/2.0/UDP 10.0.0.1:5060;branch=z9hG4bK-auth"));
    headers.append(Header::plain("To", "<sip:alice@example.com>"));
    headers.append(Header::plain("From", "<sip:alice@example.com>;tag=auth-tag"));
    headers.append(Header::plain("Call-ID", "auth-call@host"));
    headers.append(Header::plain("CSeq", "1 REGISTER"));
    if let Some((name, value)) = extra {
        headers.append(Header::plain(name, value));
    }
    let message = SipMessage {
        start_line: StartLine::Request {
            method: "REGISTER".to_string(),
            request_uri: SipUri::new("example.com".to_string()),
        },
        headers,
        body: Vec::new(),
    };
    PyRequest::new(message, "udp".to_string(), "10.0.0.1".to_string(), 5060)
}

fn make_register_request() -> PyRequest {
    register(None)
}

fn digest_header(username: &str, nonce: &str, ha1: &str) -> String {
    let digest_uri = "sip:example.com";
    let ha2 = md5_hex(&format!("REGISTER:{}", digest_uri));
    let response = md5_hex(&format!("{}:{}:{}", ha1, nonce, ha2));
    format!(
        "Digest username=\"{username}\", realm=\"example.com\", nonce=\"{nonce}\", uri=\"{digest_uri}\", response=\"{response}\""
    )
}

fn make_request_with_auth(username: &str) -> PyRequest {
    let password = match username {
        "alice" => "pass123",
        "bob" => "secret",
        _ => "wrong",
    };
    let ha1 = md5_hex(&format!("{}:{}:{}", username, "example.com", password));
    register(Some(("Authorization", &digest_header(username, "abc", &ha1))))
}

fn reply(code: u16, reason: &str) -> RequestAction {
    RequestAction::Reply { code, reason: reason.to_string(), reliable: false }
}

#[test]
fn require_www_digest_sends_401_when_no_credentials() {
    let mut auth = make_auth();
    let mut request = make_register_request();
    assert!(!auth.require_www_digest(&mut request, None, None, 0));
    assert_eq!(*request.action(), reply(401, "Unauthorized"));
}

#[test]
fn require_proxy_digest_sends_407() {
    let mut auth = make_auth();
    let mut request = make_register_request();
    assert!(!auth.require_proxy_digest(&mut request, None, None, 0));
    assert_eq!(*request.action(), reply(407, "Proxy Authentication Required"));
}

#[test]
fn require_www_digest_accepts_valid_user() {
    let mut auth = make_auth();
    let mut request = make_request_with_auth("alice");
    assert!(auth.require_www_digest(&mut request, None, None, 0));
    assert_eq!(request.get_auth_user(), Some("alice"));
    assert_eq!(*request.action(), RequestAction::NoAction);
}

#[test]
fn require_digest_strips_auth_headers_after_success() {
    let mut auth = make_auth();
    let mut request = make_request_with_auth("alice");
    assert!(request.message().headers.get("Authorization").is_some());
    assert!(auth.require_www_digest(&mut request, None, None, 0));
    assert!(
        request.message().headers.get("Authorization").is_none(),
        "Authorization header should be stripped after successful verification"
    );
    assert!(
        request.message().headers.get("Proxy-Authorization").is_none(),
        "Proxy-Authorization header should be stripped after successful verification"
    );
}

#[test]
fn require_digest_does_not_strip_headers_on_failure() {
    let mut auth = make_auth();
    let mut request = make_request_with_auth("eve");
    assert!(!auth.require_www_digest(&mut request, None, None, 0));
    assert!(request.message().headers.get("WWW-Authenticate").is_some());
    assert!(request.message().headers.get("Authorization").is_some());
}

#[test]
fn require_www_digest_rejects_unknown_user() {
    let mut auth = make_auth();
    let mut request = make_request_with_auth("eve");
    assert!(!auth.require_www_digest(&mut request, None, None, 0));
    assert_eq!(*request.action(), reply(401, "Unauthorized"));
}

#[test]
fn verify_digest_without_sending_challenge() {
    let mut auth = make_auth();
    let request_no_auth = make_register_request();
    assert!(!auth.verify_digest(&request_no_auth, None, None, 0));
    let request_with_auth = make_request_with_auth("alice");
    assert!(auth.verify_digest(&request_with_auth, None, None, 0));
}

#[test]
fn extract_username_from_digest_header() {
    let value = r#"Digest username="alice", realm="example.com", nonce="abc""#;
    assert_eq!(extract_username(value), Some("alice".to_string()));
}

#[test]
fn extract_username_case_insensitive_key() {
    let value = r#"Digest Username="bob", realm="example.com""#;
    assert_eq!(extract_username(value), Some("bob".to_string()));
}

#[test]
fn extract_username_none_when_missing() {
    let value = "Digest realm=\"example.com\"";
    assert_eq!(extract_username(value), None);
}

#[test]
fn challenge_includes_nonce_in_header() {
    let mut auth = make_auth();
    let mut request = make_register_request();
    auth.require_www_digest(&mut request, None, None, 0);
    let www_auth = request.message().headers.get("WWW-Authenticate").unwrap();
    assert!(www_auth.contains("Digest"));
    assert!(www_auth.contains("realm=\"example.com\""));
    assert!(www_auth.contains("nonce="));
    assert!(www_auth.contains("algorithm=MD5"));
}

#[test]
fn two_challenges_carry_different_nonces() {
    let mut auth = make_auth();
    let nonce = |auth: &mut PyAuth| {
        let mut request = make_register_request();
        auth.challenge_www(&mut request, None, None, 0);
        let value = request.message().headers.get("WWW-Authenticate").unwrap();
        extract_nonce_field(&value).unwrap()
    };
    let (first, second) = (nonce(&mut auth), nonce(&mut auth));
    assert_ne!(first, second);
    assert_eq!(first.len(), second.len());
}

#[test]
fn custom_realm_overrides_default() {
    let mut auth = make_auth();
    let mut request = make_register_request();
    auth.require_www_digest(&mut request, Some("custom.realm"), None, 0);
    let www_auth = request.message().headers.get("WWW-Authenticate").unwrap();
    assert!(www_auth.contains("realm=\"custom.realm\""));
}

#[test]
fn empty_auth_rejects_all() {
    let mut auth = PyAuth::empty();
    let mut request = make_request_with_auth("alice");
    assert!(!auth.require_www_digest(&mut request, None, None, 0));
}

#[test]
fn the_convenience_name_challenges_with_401() {
    let mut auth = make_auth();
    let mut request = make_register_request();
    assert!(!auth.require_digest(&mut request, None, None, 0));
    assert_eq!(*request.action(), reply(401, "Unauthorized"));
    let mut proxy = make_register_request();
    assert!(!auth.challenge_proxy(&mut proxy, None, None, 0));
    assert!(proxy.message().headers.get("Proxy-Authenticate").is_some());
    assert!(auth.check_credentials(&make_request_with_auth("bob"), None, None, 0));
}

#[test]
fn extract_sip_uri_strips_angle_brackets_and_tag() {
    assert_eq!(
        extract_sip_uri(
            "<sip:001010000000001@ims.mnc001.mcc001.3gppnetwork.org>;tag=yfJqzFRBS1"
        ),
        "sip:001010000000001@ims.mnc001.mcc001.3gppnetwork.org"
    );
}

#[test]
fn extract_sip_uri_strips_display_name() {
    assert_eq!(extract_sip_uri("\"Alice\" <sip:alice@example.com>"), "sip:alice@example.com");
}

#[test]
fn extract_sip_uri_bare_uri_unchanged() {
    assert_eq!(extract_sip_uri("sip:bob@example.com"), "sip:bob@example.com");
}

#[test]
fn extract_sip_uri_bare_uri_strips_tag() {
    assert_eq!(extract_sip_uri("sip:bob@example.com;tag=abc123"), "sip:bob@example.com");
}

#[test]
fn extract_username_from_uri_basic() {
    assert_eq!(
        extract_username_from_uri("<sip:alice@example.com>;tag=foo"),
        Some("alice".to_string())
    );
    assert_eq!(
        extract_username_from_uri("<sip:001010000000001@ims.test>"),
        Some("001010000000001".to_string())
    );
    assert_eq!(extract_username_from_uri("sip:bob@example.com"), Some("bob".to_string()));
}

#[test]
fn extract_nonce_field_quoted() {
    let value = r#"Digest username="alice", realm="test", nonce="abc123def""#;
    assert_eq!(extract_nonce_field(value), Some("abc123def".to_string()));
}

#[test]
fn extract_nonce_field_unquoted() {
    let value = "Digest nonce=abc123, realm=\"test\"";
    assert_eq!(extract_nonce_field(value), Some("abc123".to_string()));
}

#[test]
fn extract_nonce_field_skips_cnonce() {
    let value = r#"Digest username="alice",realm="test",cnonce="1d15e5dd",nc=00000001,qop=auth,uri="sip:test",nonce="realNonce123=",response="abc",algorithm=AKAv1-MD5"#;
    assert_eq!(extract_nonce_field(value), Some("realNonce123=".to_string()));
}

#[test]
fn base64_roundtrip() {
    let data = b"Hello, World!";
    let encoded = base64_encode(data);
    let decoded = base64_decode(&encoded).unwrap();
    assert_eq!(decoded, data);
    assert_eq!(encoded, "SGVsbG8sIFdvcmxkIQ==");
}

#[test]
fn base64_encode_32_bytes() {
    let data = [0u8; 32];
    let encoded = base64_encode(&data);
    assert_eq!(encoded.len(), 44);
    let decoded = base64_decode(&encoded).unwrap();
    assert_eq!(decoded.len(), 32);
}

#[test]
fn ims_auth_store_insert_lookup_consume() {
    let mut store = AuthVectorStore::new();
    let nonce = "test-ims-nonce-123".to_string();
    store.put(
        nonce.clone(),
        ImsAuthVector {
            expected_response: vec![0xAA; 16],
            ck: Some(vec![0xBB; 16]),
            ik: Some(vec![0xCC; 16]),
            stored_at: 0,
        },
    );
    assert!(store.contains(&nonce));
    let vector = store.take(&nonce, 0).unwrap();
    assert_eq!(vector.expected_response, vec![0xAA; 16]);
    assert_eq!(vector.ck.unwrap(), vec![0xBB; 16]);
    assert_eq!(vector.ik.unwrap(), vec![0xCC; 16]);
    assert!(!store.contains(&nonce));
    assert!(store.take(&nonce, 0).is_none());
}

#[test]
fn extract_auts_from_authorization_header() {
    let auth = r#"Digest username="001010000000001",realm="ims.example.com",nonce="EjRW+jgAAAAJAAABgAAAAICAAIAA",uri="sip:ims.example.com",algorithm=AKAv1-MD5,response="abc123def456abc123def456abc123de",auts="AAECAwQFBgcICQoLDA0=""#;
    let auts = extract_digest_param(auth, "auts");
    assert_eq!(auts.as_deref(), Some("AAECAwQFBgcICQoLDA0="));
    let auts_bytes = base64_decode(&auts.unwrap()).unwrap();
    assert_eq!(auts_bytes.len(), 14);
}

#[test]
fn auts_resync_data_concatenation() {
    let rand: [u8; 16] = [
        0x01, 0x02, 0x03, 0x04, 0x05, 0x06, 0x07, 0x08, 0x09, 0x0a, 0x0b, 0x0c, 0x0d, 0x0e, 0x0f,
        0x10,
    ];
    let auts: [u8; 14] = [
        0x11, 0x22, 0x33, 0x44, 0x55, 0x66, 0x77, 0x88, 0x99, 0xaa, 0xbb, 0xcc, 0xdd, 0xee,
    ];
    let mut nonce_bytes = rand.to_vec();
    nonce_bytes.extend_from_slice(&[0xff; 16]);
    let nonce = base64_encode(&nonce_bytes);
    let value = format!("Digest nonce=\"{}\", auts=\"{}\"", nonce, base64_encode(&auts));
    let (found, resync_data) = extract_resync(&value).unwrap();
    assert_eq!(found, nonce);
    assert_eq!(resync_data.len(), 30);
    assert_eq!(&resync_data[..16], &rand);
    assert_eq!(&resync_data[16..], &auts);
}

#[test]
fn extract_auts_missing_returns_none() {
    let auth = r#"Digest username="alice",realm="test",nonce="abc",response="def""#;
    assert!(extract_digest_param(auth, "auts").is_none());
}

fn http_auth_with_cache(cache_ttl_secs: u64) -> PyAuth {
    let mut auth = PyAuth::empty();
    auth.set_backend_type(AuthBackendType::Http);
    auth.set_http_config(HttpAuthConfig {
        url: "http://127.0.0.1:9/sip/auth/{username}".to_string(),
        timeout_ms: 100,
        connect_timeout_ms: 100,
        ha1: true,
        cache_ttl_secs,
    });
    auth
}

#[test]
fn cache_freshness_boundary() {
    assert!(is_cache_fresh(0, 300));
    assert!(is_cache_fresh(299, 300));
    assert!(!is_cache_fresh(300, 300));
    assert!(!is_cache_fresh(400, 300));
}

#[test]
fn ha1_cache_miss_then_store_then_hit() {
    let mut auth = http_auth_with_cache(300);
    assert!(auth.cached_credential("alice", 300, 0).is_none());
    auth.store_credential("alice", "deadbeefcafe", 0);
    assert_eq!(auth.cached_credential("alice", 300, 0).as_deref(), Some("deadbeefcafe"));
    assert_eq!(
        auth.cached_credential("alice", 300, 300 * SECOND - 1).as_deref(),
        Some("deadbeefcafe")
    );
    assert!(auth.cached_credential("alice", 300, 300 * SECOND).is_none());
    assert!(auth.cached_credential("alice", 0, 0).is_none());
}

#[test]
fn ha1_cache_not_allocated_when_ttl_zero() {
    let mut auth = http_auth_with_cache(0);
    assert!(
        !auth.has_ha1_cache(),
        "no cache map should be allocated when cache_ttl_secs is 0"
    );
    auth.store_credential("alice", "x", 0);
    assert!(auth.cached_credential("alice", 300, 0).is_none());
}

#[test]
fn an_http_credential_is_fetched_once_and_then_cached() {
    let mut auth = http_auth_with_cache(300);
    let ha1 = md5_hex("alice:example.com:pass123");
    let mut first = make_request_with_auth("alice");
    let value = first.message().headers.get("Authorization").unwrap();
    let (username, url) = auth.credential_fetch(Some(&value), 0).unwrap();
    assert_eq!(username, "alice");
    assert_eq!(url, "http://127.0.0.1:9/sip/auth/alice");
    assert!(auth.require_www_digest(&mut first, None, Some(ha1), 0));
    let mut second = make_request_with_auth("alice");
    assert!(auth.credential_fetch(Some(&value), SECOND).is_none());
    assert!(auth.require_www_digest(&mut second, None, None, SECOND));
    assert_eq!(credential_from_response(true, " abc \n").as_deref(), Some("abc"));
    assert!(credential_from_response(false, "abc").is_none());
}

#[test]
fn a_cache_hit_is_seen_while_the_credential_lives() {
    let mut auth = http_auth_with_cache(300);
    let request = make_request_with_auth("alice");
    let value = request.message().headers.get("Authorization").unwrap();
    assert!(!auth.is_cache_hit(Some(&value), 0));
    auth.store_credential("alice", "deadbeefcafe", 0);
    assert!(auth.is_cache_hit(Some(&value), 300 * SECOND - 1));
    assert!(!auth.is_cache_hit(Some(&value), 300 * SECOND));
    assert!(!auth.is_cache_hit(None, 0));
    assert!(!make_auth().is_cache_hit(Some(&value), 0));
}

#[test]
fn a_digest_check_is_recorded_by_its_source() {
    let request = make_register_request();
    let source = IpAddr::parse("10.0.0.1").unwrap();
    let refused = digest_records(&request, false);
    assert_eq!(refused.ban, Some(BanRecord::Failure(source)));
    assert_eq!(refused.failures, 1);
    let accepted = digest_records(&request, true);
    assert_eq!(accepted.ban, Some(BanRecord::Success(source)));
    assert_eq!(accepted.failures, 0);
    let message = SipMessage {
        start_line: StartLine::Request {
            method: "REGISTER".to_string(),
            request_uri: SipUri::new("example.com".to_string()),
        },
        headers: Headers::new(),
        body: Vec::new(),
    };
    let odd = PyRequest::new(message, "udp".to_string(), "unknown".to_string(), 5060);
    assert_eq!(digest_records(&odd, false).ban, None);
    assert_eq!(digest_records(&odd, false).failures, 1);
}

#[test]
fn the_given_realm_decides_on_the_password() {
    let realm = |name: &str, password: &str| RealmUsers {
        realm: name.to_string(),
        users: vec![("alice".to_string(), password.to_string())],
    };
    let auth = || {
        PyAuth::new(
            vec![realm("first.example", "one"), realm("second.example", "two")],
            "first.example".to_string(),
        )
    };
    let with = |realm: &str, password: &str| {
        let ha1 = md5_hex(&format!("alice:{realm}:{password}"));
        register(Some(("Authorization", &digest_header("alice", "abc", &ha1))))
    };
    let second = Some("second.example");
    assert!(auth().verify_digest(&with("second.example", "two"), second, None, 0));
    assert!(!auth().verify_digest(&with("second.example", "one"), second, None, 0));
    assert!(auth().verify_digest(&with("first.example", "one"), None, None, 0));
    assert!(!auth().verify_digest(&with("first.example", "two"), None, None, 0));
    let other = Some("other.example");
    assert!(auth().verify_digest(&with("other.example", "one"), other, None, 0));
}

#[test]
fn hash_functions_give_their_known_digests() {
    assert_eq!(md5_hex("abc"), "900150983cd24fb0d6963f7d28e17f72");
    assert_eq!(
        hash_hex(DigestAlgorithm::Sha256, b"abc"),
        "ba7816bf8f01cfea414140de5dae2223b00361a396177a9cb410ff61f20015ad"
    );
    assert_eq!(
        hash_hex(DigestAlgorithm::Sha512_256, b"abc"),
        "53048e2681941ef99b2e29b76b4c7dabe4c2d0c634fc6d46e0e2f13107e7af23"
    );
    assert_eq!(
        password_ha1(DigestAlgorithm::Md5, "alice", "example.com", "pass123"),
        md5_hex("alice:example.com:pass123")
    );
    assert!(parse_algorithm(Some("SHA-256")) == DigestAlgorithm::Sha256);
    assert!(parse_algorithm(None) == DigestAlgorithm::Md5);
}

fn aka_auth() -> PyAuth {
    let mut auth = make_auth();
    auth.set_aka_credentials(vec![(
        "alice".to_string(),
        AkaCredential {
            k: "465b5ce8b199b49faa5f0a2ee238a6bc".to_string(),
            op: "cdc202d5123e20f62b6d676ac72cb318".to_string(),
            amf: "8000".to_string(),
        },
    )]);
    auth
}

#[test]
fn an_aka_challenge_is_answered_once() {
    let auth = aka_auth();
    let mut store = AuthVectorStore::new();
    let mut first = make_register_request();
    match auth.require_aka_digest(&mut store, &mut first, None, 0) {
        Ok(AkaStep::Challenge { k, sqn, amf, .. }) => {
            assert_eq!(k[0], 0x46);
            assert_eq!(sqn, vec![0, 0, 0, 0, 0, 1]);
            assert_eq!(amf, vec![0x80, 0x00]);
        }
        _ => panic!("expected a challenge"),
    }
    let xres = vec![0x21; 8];
    let vector = AkaVector { rand: vec![1; 16], autn: vec![2; 16], xres: xres.clone() };
    auth.send_aka_challenge(&mut store, &mut first, None, vector, 0);
    assert_eq!(*first.action(), reply(401, "Unauthorized"));
    let challenge = first.message().headers.get("WWW-Authenticate").unwrap();
    assert!(challenge.contains("algorithm=AKAv1-MD5"));
    let nonce = extract_nonce_field(&challenge).unwrap();
    assert!(store.contains(&nonce));
    let ha1 = md5_ha1_aka("alice", "example.com", &xres);
    let value = digest_header("alice", &nonce, &ha1);
    let mut second = register(Some(("Authorization", &value)));
    assert!(matches!(
        auth.require_aka_digest(&mut store, &mut second, None, SECOND),
        Ok(AkaStep::Verified)
    ));
    assert_eq!(second.get_auth_user(), Some("alice"));
    let mut replay = register(Some(("Authorization", &value)));
    assert!(matches!(
        auth.require_aka_digest(&mut store, &mut replay, None, SECOND),
        Ok(AkaStep::Challenge { .. })
    ));
}

#[test]
fn an_aka_subscriber_must_be_known_and_well_configured() {
    let mut store = AuthVectorStore::new();
    let mut request = make_register_request();
    assert!(matches!(
        make_auth().require_aka_digest(&mut store, &mut request, None, 0),
        Ok(AkaStep::Forbidden)
    ));
    assert_eq!(*request.action(), reply(403, "Forbidden"));
    let fails = |k: &str, op: &str, amf: &str| {
        let mut auth = make_auth();
        auth.set_aka_credentials(vec![(
            "alice".to_string(),
            AkaCredential { k: k.to_string(), op: op.to_string(), amf: amf.to_string() },
        )]);
        let mut store = AuthVectorStore::new();
        let mut request = make_register_request();
        auth.require_aka_digest(&mut store, &mut request, None, 0).err().unwrap().message
    };
    let key = "00112233445566778899aabbccddeeff";
    assert_eq!(fails("zz", key, "8000"), "invalid AKA K (need 32 hex chars)");
    assert_eq!(fails(key, "00", "8000"), "invalid AKA OP (need 32 hex chars)");
    assert_eq!(fails(key, key, "8"), "invalid AKA AMF (need 4 hex chars)");
}

fn maa() -> MaaAnswer {
    MaaAnswer {
        result_code: Some(2001),
        authenticate: Some(vec![7; 32]),
        authorization: Some(vec![9; 8]),
        confidentiality_key: Some(vec![0xab; 16]),
        integrity_key: Some(vec![0xcd; 16]),
    }
}

#[test]
fn an_ims_challenge_is_answered_while_its_vector_lives() {
    let mut auth = make_auth();
    auth.set_diameter_manager();
    let mut store = AuthVectorStore::new();
    let mut first = make_register_request();
    match auth.require_ims_digest(&mut store, &mut first, None, true, 0) {
        Ok(ImsStep::SendMar { public_identity, items, auth_scheme, resync }) => {
            assert_eq!(items, 1);
            assert_eq!(public_identity, "sip:alice@example.com");
            assert_eq!(auth_scheme, "SIP Digest");
            assert!(resync.is_none());
        }
        _ => panic!("expected a request to the HSS"),
    }
    assert!(!auth
        .complete_ims_digest(&mut store, &mut first, None, false, Ok(maa()), 0)
        .unwrap());
    let nonce = base64_encode(&[7; 32]);
    assert!(store.contains(&nonce));
    let ha1 = md5_ha1_aka("alice", "example.com", &[9; 8]);
    let value = digest_header("alice", &nonce, &ha1);
    let mut late = register(Some(("Authorization", &value)));
    let mut stale_store = AuthVectorStore::new();
    stale_store.insert(nonce.clone(), vec![9; 8], 0);
    assert!(matches!(
        auth.require_ims_digest(&mut stale_store, &mut late, None, true, 120 * SECOND),
        Ok(ImsStep::SendMar { .. })
    ));
    let mut second = register(Some(("Authorization", &value)));
    assert!(matches!(
        auth.require_ims_digest(&mut store, &mut second, None, true, 119 * SECOND),
        Ok(ImsStep::Verified)
    ));
    assert_eq!(second.get_auth_user(), Some("alice"));
    assert!(!store.contains(&nonce));
}

#[test]
fn an_ims_exchange_needs_diameter_and_a_good_answer() {
    let mut store = AuthVectorStore::new();
    let mut request = make_register_request();
    let auth = make_auth();
    let error = auth.require_ims_digest(&mut store, &mut request, None, true, 0).err().unwrap();
    assert!(error.display().starts_with("RuntimeError: IMS digest auth requires"));
    let mut auth = make_auth();
    auth.set_diameter_manager();
    let error = auth.require_ims_digest(&mut store, &mut request, None, false, 0).err().unwrap();
    assert_eq!(error.message, "no Diameter peer connected");
    let failed = auth.complete_ims_digest(
        &mut store,
        &mut request,
        None,
        true,
        Err("timed out".to_string()),
        0,
    );
    assert_eq!(failed.err().unwrap().message, "MAR resync failed: timed out");
    let refused = MaaAnswer { result_code: Some(5001), ..maa() };
    assert!(!auth
        .complete_ims_digest(&mut store, &mut request, None, false, Ok(refused), 0)
        .unwrap());
    assert_eq!(*request.action(), reply(403, "Forbidden"));
    assert_eq!(store.len(), 0);
}
