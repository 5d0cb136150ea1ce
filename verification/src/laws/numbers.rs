//! Laws of telephone numbers and number policies.

use crate::error::ScriptError;
use crate::numbers::{
    apply_for_dial, apply_for_fork, apply_to_message, format_in, home_locale, parse_format,
    resolve_dial_policy, resolve_rewrite_policy, shaped_in, shaped_text, IdentityHeader, Number,
    NumberFormat, NumberLocale, NumberPolicy, NumberRegistry, NumberRuntime, PolicyText, PyNumber,
    PyNumbersNamespace, Reshaped, ShapedTarget, ShapedText,
};
use crate::sip::{SipMessage, StartText};
use crate::text::{opt_text, starts_with, texts, trim};
use vstd::prelude::*;
use vstd::string::*;

verus! {

/// A number shows each of its forms under its own name: by its property, and by
/// the name of the format.
pub proof fn number_shows_its_forms(
    namespace: PyNumbersNamespace,
    number: Number,
    parsed: PyNumber,
    e164: String,
    plain: String,
    international: String,
    national: String,
    country: Option<String>,
    nsn: String,
    shown: String,
)
    requires
        call_ensures(PyNumbersNamespace::parse, (&namespace, Ok(number)), Ok(parsed)),
        call_ensures(PyNumber::e164, (&parsed,), e164),
        call_ensures(PyNumber::plain, (&parsed,), plain),
        call_ensures(PyNumber::international, (&parsed,), international),
        call_ensures(PyNumber::national, (&parsed,), national),
        call_ensures(PyNumber::cc, (&parsed,), country),
        call_ensures(PyNumber::nsn, (&parsed,), nsn),
        call_ensures(PyNumber::__str__, (&parsed,), shown),
    ensures
        e164@ == number.e164@,
        plain@ == number.plain@,
        international@ == number.international@,
        national@ == number.national@,
        opt_text(country) == opt_text(number.country_code),
        nsn@ == number.nsn@,
        shown@ == number.e164@,
{
}

/// A number is given in the format that is named, and in no format that has no
/// name.
pub proof fn number_is_given_in_the_named_format(
    namespace: PyNumbersNamespace,
    number: Number,
    parsed: PyNumber,
    format: &str,
    outcome: Result<String, ScriptError>,
)
    requires
        call_ensures(PyNumbersNamespace::parse, (&namespace, Ok(number)), Ok(parsed)),
        call_ensures(PyNumber::format, (&parsed, format), outcome),
    ensures
        format@ == "e164"@ ==> (outcome matches Ok(text) && text@ == number.e164@),
        format@ == "plain"@ ==> (outcome matches Ok(text) && text@ == number.plain@),
        format@ == "international"@ ==> (outcome matches Ok(text) && text@
            == number.international@),
        format@ == "national"@ ==> (outcome matches Ok(text) && text@ == number.national@),
        outcome is Ok <==> format@ == "e164"@ || format@ == "plain"@ || format@
            == "international"@ || format@ == "national"@,
{
    reveal_strlit("e164");
    reveal_strlit("plain");
    reveal_strlit("international");
    reveal_strlit("national");
    assert("e164"@.len() == 4);
    assert("plain"@.len() == 5);
    assert("international"@.len() == 13);
    assert("national"@.len() == 8);
}

/// The format of a place is the one of its last override, or else the default of
/// the policy.
pub proof fn last_override_decides(policy: NumberPolicy, header: IdentityHeader, format: NumberFormat)
    requires
        call_ensures(NumberPolicy::format_for, (&policy, header), format),
    ensures
        (forall|i: int| 0 <= i < policy.overrides@.len() ==> (#[trigger] policy.overrides@[i]).0
            != header) ==> format == policy.default_format,
        forall|i: int|
            0 <= i < policy.overrides@.len() && (#[trigger] policy.overrides@[i]).0 == header && (
            forall|j: int|
                i < j < policy.overrides@.len() ==> (#[trigger] policy.overrides@[j]).0 != header)
                ==> format == policy.overrides@[i].1,
{
    lemma_format_in(policy@, header);
}

proof fn lemma_format_in(p: PolicyText, header: IdentityHeader)
    ensures
        (forall|i: int| 0 <= i < p.overrides.len() ==> (#[trigger] p.overrides[i]).0 != header)
            ==> format_in(p, header) == p.default_format,
        forall|i: int|
            0 <= i < p.overrides.len() && (#[trigger] p.overrides[i]).0 == header && (forall|j: int|
                i < j < p.overrides.len() ==> (#[trigger] p.overrides[j]).0 != header) ==> format_in(
                p,
                header,
            ) == p.overrides[i].1,
    decreases p.overrides.len(),
{
    if p.overrides.len() > 0 {
        let rest = PolicyText { overrides: p.overrides.drop_last(), ..p };
        lemma_format_in(rest, header);
        let n = p.overrides.len() - 1;
        assert(p.overrides.last() == p.overrides[n]);
        if p.overrides[n].0 != header {
            if forall|i: int| 0 <= i < p.overrides.len() ==> (#[trigger] p.overrides[i]).0 != header {
                assert forall|i: int| 0 <= i < rest.overrides.len() implies (
                #[trigger] rest.overrides[i]).0 != header by {
                    assert(rest.overrides[i] == p.overrides[i]);
                }
            }
            assert forall|i: int|
                0 <= i < p.overrides.len() && (#[trigger] p.overrides[i]).0 == header && (forall|
                    j: int,
                |
                    i < j < p.overrides.len() ==> (#[trigger] p.overrides[j]).0
                        != header) implies format_in(p, header) == p.overrides[i].1 by {
                assert(rest.overrides[i] == p.overrides[i]);
                assert forall|j: int| i < j < rest.overrides.len() implies (
                #[trigger] rest.overrides[j]).0 != header by {
                    assert(rest.overrides[j] == p.overrides[j]);
                }
            }
        }
    }
}

/// A script's own country code takes the place of the configured one, without
/// its plus; the prefixes stay.
pub proof fn home_code_replaces_the_country_code(
    runtime: NumberRuntime,
    home: &str,
    locale: NumberLocale,
    usual: NumberLocale,
)
    requires
        call_ensures(home_locale, (&runtime, Some(home)), locale),
        call_ensures(home_locale, (&runtime, None), usual),
    ensures
        usual.country_code@ == runtime.registry.default_locale.country_code@,
        usual.international_prefix@ == runtime.registry.default_locale.international_prefix@,
        usual.national_prefix@ == runtime.registry.default_locale.national_prefix@,
        locale.international_prefix@ == runtime.registry.default_locale.international_prefix@,
        locale.national_prefix@ == runtime.registry.default_locale.national_prefix@,
        !starts_with(trim(home@), "+"@) ==> locale.country_code@ == trim(home@),
        starts_with(trim(home@), "+"@) ==> "+"@ + locale.country_code@ == trim(home@),
{
    reveal_strlit("+");
    if starts_with(trim(home@), "+"@) {
        assert("+"@ + locale.country_code@ =~= trim(home@));
    }
}

/// Numbers that were reshaped are put in place: the headers that were computed,
/// and the request line's address where one was; method, body and count stay as
/// they were given.
pub proof fn reshaped_numbers_are_put_in_place(
    message: &mut SipMessage,
    reshaped: Reshaped,
    changed: usize,
)
    requires
        call_ensures(apply_to_message, (message, reshaped), changed),
    ensures
        changed == reshaped.changed,
        final(message)@.headers == reshaped.headers@,
        final(message)@.body == old(message)@.body,
        match (old(message)@.start, reshaped.request_uri) {
            (StartText::Request { method, .. }, Some(uri)) => final(message)@.start
                == (StartText::Request { method, request_uri: uri@ }),
            _ => final(message)@.start == old(message)@.start,
        },
{
}

proof fn lemma_shaped_none(v: Seq<ShapedText>, format: NumberFormat, target: Seq<char>)
    requires
        forall|i: int|
            0 <= i < v.len() ==> !((#[trigger] v[i]).target == target && v[i].format == format),
    ensures
        shaped_in(v, format, target) == target,
    decreases v.len(),
{
    if v.len() > 0 {
        let rest = v.skip(1);
        assert(!(v[0].target == target && v[0].format == format));
        assert forall|i: int| 0 <= i < rest.len() implies !((#[trigger] rest[i]).target == target
            && rest[i].format == format) by {
            assert(rest[i] == v[i + 1]);
        }
        lemma_shaped_none(rest, format, target);
    }
}

proof fn lemma_shaped_at(v: Seq<ShapedText>, format: NumberFormat, target: Seq<char>, k: int)
    requires
        0 <= k < v.len(),
        v[k].target == target && v[k].format == format,
        forall|i: int|
            0 <= i < k ==> !((#[trigger] v[i]).target == target && v[i].format == format),
    ensures
        shaped_in(v, format, target) == v[k].shaped,
    decreases v.len(),
{
    if k > 0 {
        let rest = v.skip(1);
        assert(!(v[0].target == target && v[0].format == format));
        assert forall|i: int| 0 <= i < k - 1 implies !((#[trigger] rest[i]).target == target
            && rest[i].format == format) by {
            assert(rest[i] == v[i + 1]);
        }
        lemma_shaped_at(rest, format, target, k - 1);
    }
}

/// Whether a shape is listed for a target in a format at a place.
pub open spec fn lists(
    shapes: Seq<ShapedTarget>,
    k: int,
    target: Seq<char>,
    format: NumberFormat,
) -> bool {
    0 <= k < shapes.len() && shapes[k].target@ == target && shapes[k].format == format
}

/// Whether a place is the first where a shape is listed for a target in a format.
pub open spec fn lists_first(
    shapes: Seq<ShapedTarget>,
    k: int,
    target: Seq<char>,
    format: NumberFormat,
) -> bool {
    lists(shapes, k, target, format) && forall|j: int|
        0 <= j < k ==> !#[trigger] lists(shapes, j, target, format)
}

proof fn lemma_listed_shape(
    shapes: Seq<ShapedTarget>,
    k: int,
    target: Seq<char>,
    format: NumberFormat,
)
    ensures
        (forall|j: int| !#[trigger] lists(shapes, j, target, format)) ==> shaped_in(
            shaped_text(shapes),
            format,
            target,
        ) == target,
        lists_first(shapes, k, target, format) ==> shaped_in(shaped_text(shapes), format, target)
            == shapes[k].shaped@,
{
    let v = shaped_text(shapes);
    assert(v.len() == shapes.len());
    if forall|j: int| !#[trigger] lists(shapes, j, target, format) {
        assert forall|j: int| 0 <= j < v.len() implies !((#[trigger] v[j]).target == target
            && v[j].format == format) by {
            assert(!lists(shapes, j, target, format));
        }
        lemma_shaped_none(v, format, target);
    }
    if lists_first(shapes, k, target, format) {
        assert(v[k].target == target && v[k].format == format);
        assert forall|j: int| 0 <= j < k implies !((#[trigger] v[j]).target == target && v[j].format
            == format) by {
            assert(!lists(shapes, j, target, format));
        }
        lemma_shaped_at(v, format, target, k);
    }
}

/// Each target of a fork becomes the shape that is listed first for it in the
/// policy's format for the request line, in its place, and stays as it is where
/// none is listed.
pub proof fn forked_targets_are_reshaped_in_place(
    message: &mut SipMessage,
    policy: NumberPolicy,
    format: NumberFormat,
    reshaped: Reshaped,
    targets: &mut Vec<String>,
    i: int,
    k: int,
)
    requires
        call_ensures(NumberPolicy::format_for, (&policy, IdentityHeader::RequestUri), format),
        call_ensures(apply_for_fork, (message, &policy, reshaped, targets), ()),
        0 <= i < old(targets)@.len(),
    ensures
        final(targets)@.len() == old(targets)@.len(),
        (forall|j: int| !#[trigger] lists(reshaped.targets@, j, old(targets)@[i]@, format))
            ==> final(targets)@[i]@ == old(targets)@[i]@,
        lists_first(reshaped.targets@, k, old(targets)@[i]@, format) ==> final(targets)@[i]@
            == reshaped.targets@[k].shaped@,
        final(message)@.headers == reshaped.headers@,
        final(message)@.start == old(message)@.start,
{
    let before = texts(old(targets)@);
    let after = texts(final(targets)@);
    assert(after.len() == final(targets)@.len());
    assert(before.len() == old(targets)@.len());
    assert(before[i] == old(targets)@[i]@);
    assert(after[i] == final(targets)@[i]@);
    lemma_listed_shape(reshaped.targets@, k, old(targets)@[i]@, format);
}

/// A target that is dialled becomes the shape that is listed first for it in the
/// policy's format for the request line, and stays as it is where none is listed.
pub proof fn dialled_target_is_reshaped(
    message: &mut SipMessage,
    policy: NumberPolicy,
    format: NumberFormat,
    reshaped: Reshaped,
    target: &str,
    shaped: String,
    k: int,
)
    requires
        call_ensures(NumberPolicy::format_for, (&policy, IdentityHeader::RequestUri), format),
        call_ensures(apply_for_dial, (message, &policy, reshaped, target), shaped),
    ensures
        (forall|j: int| !#[trigger] lists(reshaped.targets@, j, target@, format)) ==> shaped@
            == target@,
        lists_first(reshaped.targets@, k, target@, format) ==> shaped@
            == reshaped.targets@[k].shaped@,
        final(message)@.headers == reshaped.headers@,
        final(message)@.start == old(message)@.start,
{
    lemma_listed_shape(reshaped.targets@, k, target@, format);
}

/// An inline rewriting is of the format that is named, over the places that are
/// named, under the script's own country code; a named policy is the one that
/// was configured under the name.
pub proof fn rewriting_follows_its_arguments(
    runtime: NumberRuntime,
    format: &str,
    parsed: NumberFormat,
    home: Option<&str>,
    locale: NumberLocale,
    policy: NumberPolicy,
)
    requires
        call_ensures(
            resolve_rewrite_policy,
            (&runtime, None, Some(format), None, home),
            Ok(policy),
        ),
        call_ensures(parse_format, (format,), Ok(parsed)),
        call_ensures(home_locale, (&runtime, home), locale),
    ensures
        policy.default_format == parsed,
        policy.overrides@.len() == 0,
        policy.locale@ == locale@,
        policy.headers@ == seq![
            IdentityHeader::From,
            IdentityHeader::To,
            IdentityHeader::PAssertedIdentity,
            IdentityHeader::PPreferredIdentity,
        ],
{
}

/// A policy that is named is the one that was configured under the name, for a
/// rewriting and for a dialling alike; a dialling that names none uses the
/// default.
pub proof fn named_policy_is_the_configured_one(
    runtime: NumberRuntime,
    name: &str,
    home: Option<&str>,
    rewriting: NumberPolicy,
    dialling: Option<NumberPolicy>,
    unnamed: Option<NumberPolicy>,
    found: Option<NumberPolicy>,
)
    requires
        call_ensures(
            resolve_rewrite_policy,
            (&runtime, Some(name), None, None, home),
            Ok(rewriting),
        ),
        call_ensures(resolve_dial_policy, (&runtime, Some(name)), Ok(dialling)),
        call_ensures(resolve_dial_policy, (&runtime, None), Ok(unnamed)),
        call_ensures(NumberRegistry::get, (&runtime.registry, name), found),
    ensures
        found matches Some(policy) && rewriting@ == policy@ && (dialling matches Some(other)
            && other@ == policy@),
        match runtime.default_b2bua_policy {
            Some(policy) => unnamed matches Some(other) && other@ == policy@,
            None => unnamed is None,
        },
{
}

} // verus!
