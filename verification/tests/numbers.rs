//! Number policies.

use siphon::numbers::{
    apply_for_dial, apply_for_fork, apply_identity_headers, default_identity_headers, home_locale,
    resolve_dial_policy, resolve_rewrite_policy, IdentityHeader, Number, NumberFormat,
    NumberLocale, NumberPolicy, NumberRegistry, NumberRuntime, PyNumbersNamespace, Reshaped,
    RuntimeSlot, ShapedTarget,
};
use siphon::sip::{Header, Headers, SipMessage, SipUri, StartLine};

fn locale(country_code: &str) -> NumberLocale {
    NumberLocale {
        country_code: country_code.to_string(),
        international_prefix: "00".to_string(),
        national_prefix: "0".to_string(),
    }
}

fn runtime() -> NumberRuntime {
    let policy = |format| NumberPolicy::uniform(locale("31"), format, vec![IdentityHeader::From]);
    NumberRuntime {
        registry: NumberRegistry {
            default_locale: locale("31"),
            policies: vec![
                ("plain@2026".to_string(), policy(NumberFormat::Plain)),
                ("e164@2026".to_string(), policy(NumberFormat::E164)),
                ("national@2026".to_string(), policy(NumberFormat::National)),
            ],
        },
        default_b2bua_policy: Some(policy(NumberFormat::International)),
    }
}

fn message() -> SipMessage {
    let mut headers = Headers::new();
    headers.append(Header::plain("From", "<sip:0612345678@home>"));
    SipMessage {
        start_line: StartLine::Request {
            method: "INVITE".to_string(),
            request_uri: SipUri::new("home".to_string()),
        },
        headers,
        body: Vec::new(),
    }
}

fn shaped(target: &str, format: NumberFormat, shaped: &str) -> ShapedTarget {
    ShapedTarget { target: target.to_string(), format, shaped: shaped.to_string() }
}

fn reshaped(targets: Vec<ShapedTarget>) -> Reshaped {
    let mut headers = Headers::new();
    headers.append(Header::plain("From", "<sip:+31612345678@home>"));
    Reshaped {
        headers,
        request_uri: Some(SipUri::new("other".to_string())),
        changed: 1,
        targets,
    }
}

fn host(message: &SipMessage) -> String {
    match &message.start_line {
        StartLine::Request { request_uri, .. } => request_uri.host.clone(),
        StartLine::Response { .. } => String::new(),
    }
}

#[test]
fn resolve_inline_format_default_headers() {
    let policy =
        resolve_rewrite_policy(&NumberRuntime::blank(), None, Some("e164"), None, Some("31"))
            .unwrap();
    assert_eq!(policy.default_format, NumberFormat::E164);
    assert_eq!(policy.locale.country_code, "31");
    assert_eq!(policy.headers, default_identity_headers());
}

#[test]
fn resolve_inline_rejects_both_policy_and_format() {
    let result =
        resolve_rewrite_policy(&NumberRuntime::blank(), Some("x@2026"), Some("e164"), None, None);
    assert_eq!(
        result.unwrap_err().message,
        "rewrite_identities(): pass either policy= or format=, not both"
    );
}

#[test]
fn resolve_requires_something() {
    assert!(resolve_rewrite_policy(&NumberRuntime::blank(), None, None, None, None).is_err());
}

#[test]
fn resolve_unknown_header_token_errors() {
    let result = resolve_rewrite_policy(
        &NumberRuntime::blank(),
        None,
        Some("e164"),
        Some(vec!["bogus".to_string()]),
        None,
    );
    assert_eq!(result.unwrap_err().message, "unknown identity header \"bogus\"");
}

#[test]
fn resolve_unknown_named_policy_errors() {
    let result =
        resolve_rewrite_policy(&NumberRuntime::blank(), Some("nope@2026"), None, None, None);
    assert_eq!(result.unwrap_err().message, "unknown number policy \"nope@2026\"");
}

#[test]
fn a_named_policy_is_found_and_a_format_must_be_known() {
    let policy = resolve_rewrite_policy(&runtime(), Some("plain@2026"), None, None, None).unwrap();
    assert_eq!(policy.default_format, NumberFormat::Plain);
    let error = resolve_rewrite_policy(&runtime(), None, Some("E164"), None, None).unwrap_err();
    assert_eq!(error.message, "unknown number format \"E164\"");
}

#[test]
fn walked_headers_are_listed_once() {
    let policy = resolve_rewrite_policy(
        &runtime(),
        None,
        Some("national"),
        Some(vec!["To".to_string(), "from".to_string(), "TO".to_string()]),
        None,
    )
    .unwrap();
    assert_eq!(policy.headers, vec![IdentityHeader::To, IdentityHeader::From]);
    assert_eq!(policy.locale.country_code, "31");
}

#[test]
fn a_home_code_loses_its_plus_and_its_blanks() {
    assert_eq!(home_locale(&runtime(), Some(" +32 ")).country_code, "32");
    assert_eq!(home_locale(&runtime(), Some("49")).country_code, "49");
    assert_eq!(home_locale(&runtime(), None).country_code, "31");
    assert_eq!(home_locale(&runtime(), Some("++1")).country_code, "+1");
}

#[test]
fn a_dialed_call_takes_the_named_policy_else_the_default() {
    let named = resolve_dial_policy(&runtime(), Some("e164@2026")).unwrap().unwrap();
    assert_eq!(named.default_format, NumberFormat::E164);
    let default = resolve_dial_policy(&runtime(), None).unwrap().unwrap();
    assert_eq!(default.default_format, NumberFormat::International);
    assert!(resolve_dial_policy(&NumberRuntime::blank(), None).unwrap().is_none());
    assert!(resolve_dial_policy(&runtime(), Some("?")).is_err());
}

#[test]
fn an_override_shapes_one_header() {
    let mut policy = NumberPolicy::uniform(locale("31"), NumberFormat::E164, vec![]);
    policy.overrides = vec![
        (IdentityHeader::RequestUri, NumberFormat::Plain),
        (IdentityHeader::RequestUri, NumberFormat::National),
    ];
    assert_eq!(policy.format_for(IdentityHeader::RequestUri), NumberFormat::National);
    assert_eq!(policy.format_for(IdentityHeader::To), NumberFormat::E164);
}

#[test]
fn the_first_installation_wins() {
    let mut slot = RuntimeSlot::new();
    assert!(slot.default_b2bua_policy().is_none());
    assert_eq!(slot.number_runtime(), NumberRuntime::blank());
    slot.set_number_runtime(runtime());
    slot.set_number_runtime(NumberRuntime::blank());
    assert_eq!(slot.number_runtime(), runtime());
    assert!(slot.default_b2bua_policy().is_some());
}

#[test]
fn policy_names_come_in_order() {
    let names = PyNumbersNamespace::new().policy_names(&runtime());
    assert_eq!(names, vec!["e164@2026", "national@2026", "plain@2026"]);
    assert_eq!(PyNumbersNamespace::new().__repr__(), "<siphon.numbers>");
}

#[test]
fn dialing_reshapes_headers_and_target_but_not_the_request_uri() {
    let policy = NumberPolicy::uniform(locale("31"), NumberFormat::E164, vec![]);
    let mut m = message();
    let one = || vec![shaped("sip:0x", NumberFormat::E164, "sip:+31x")];
    assert_eq!(apply_for_dial(&mut m, &policy, reshaped(one()), "sip:0x"), "sip:+31x");
    assert_eq!(m.headers.get("From").as_deref(), Some("<sip:+31612345678@home>"));
    assert_eq!(host(&m), "home");
    assert_eq!(apply_for_dial(&mut m, &policy, reshaped(vec![]), "sip:0x"), "sip:0x");
    let mut targets = vec!["a".to_string(), "b".to_string()];
    let first = vec![shaped("a", NumberFormat::E164, "A")];
    apply_for_fork(&mut m, &policy, reshaped(first), &mut targets);
    assert_eq!(targets, vec!["A", "b"]);
    let mut other = message();
    apply_identity_headers(&mut other, reshaped(vec![]));
    assert_eq!(other.headers.get("From").as_deref(), Some("<sip:+31612345678@home>"));
    assert_eq!(host(&other), "home");
}

#[test]
fn a_target_takes_the_format_of_the_request_uri() {
    let mut policy = NumberPolicy::uniform(locale("31"), NumberFormat::E164, vec![]);
    let both = || {
        vec![
            shaped("sip:0x", NumberFormat::E164, "sip:+31x"),
            shaped("sip:0x", NumberFormat::Plain, "sip:31x"),
        ]
    };
    let mut m = message();
    assert_eq!(apply_for_dial(&mut m, &policy, reshaped(both()), "sip:0x"), "sip:+31x");
    policy.overrides = vec![(IdentityHeader::RequestUri, NumberFormat::Plain)];
    assert_eq!(apply_for_dial(&mut m, &policy, reshaped(both()), "sip:0x"), "sip:31x");
    let mut targets = vec!["sip:0x".to_string()];
    apply_for_fork(&mut m, &policy, reshaped(both()), &mut targets);
    assert_eq!(targets, vec!["sip:31x"]);
    policy.overrides = vec![(IdentityHeader::To, NumberFormat::Plain)];
    assert_eq!(apply_for_dial(&mut m, &policy, reshaped(both()), "sip:0x"), "sip:+31x");
}

#[test]
fn a_number_shows_in_every_shape() {
    let number = Number {
        e164: "+31612345678".to_string(),
        plain: "31612345678".to_string(),
        international: "0031612345678".to_string(),
        national: "0612345678".to_string(),
        country_code: Some("31".to_string()),
        nsn: "612345678".to_string(),
    };
    let number = PyNumbersNamespace::new().parse(Ok(number)).unwrap();
    assert_eq!(number.e164(), "+31612345678");
    assert_eq!(number.plain(), "31612345678");
    assert_eq!(number.international(), "0031612345678");
    assert_eq!(number.national(), "0612345678");
    assert_eq!(number.cc().as_deref(), Some("31"));
    assert_eq!(number.nsn(), "612345678");
    assert_eq!(number.format("plain").unwrap(), "31612345678");
    assert!(number.format("roman").is_err());
    assert_eq!(number.__str__(), "+31612345678");
    assert_eq!(number.__repr__(), "<Number +31612345678>");
    let error = PyNumbersNamespace::new().parse(Err("not dialable".to_string())).err().unwrap();
    assert_eq!(error.display(), "ValueError: not dialable");
}
