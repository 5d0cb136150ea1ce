//! Digest credentials (RFC 2617, RFC 7616, RFC 3310): reading the parameters
//! of an `Authorization` value and verifying the response.

use crate::hash::{hash_hex, hash_text, DigestAlgorithm};
use crate::text::{
    char_is_alpha, char_is_alphanumeric, chars_of, find_char, find_char_in, find_text,
    find_text_in, is_alpha, is_alphanumeric, lemma_find_char_is, lemma_find_char_range, lower,
    opt_str, opt_text, replace_char, replaced, same_ignoring_case, same_text, starts_with,
    string_between, strip_prefix, to_lower,
    to_unicode_upper, trim, trim_bounds, uppercase,
};
use vstd::prelude::*;
use vstd::string::*;
use vstd::utf8::encode_utf8;

verus! {

/// Which characters before a parameter name make it part of a longer name.
#[derive(Clone, Copy, PartialEq, Eq, Structural)]
pub enum NameBoundary {
    /// Any character may stand before the name.
    Anywhere,
    /// No letter or digit may stand before the name.
    NotAlphanumeric,
    /// No letter may stand before the name.
    NotAlphabetic,
}

pub open spec fn at_boundary(s: Seq<char>, at: int, boundary: NameBoundary) -> bool {
    at == 0 || match boundary {
        NameBoundary::Anywhere => true,
        NameBoundary::NotAlphanumeric => !is_alphanumeric(s[at - 1]),
        NameBoundary::NotAlphabetic => !is_alpha(s[at - 1]),
    }
}

/// The first place at or after `from` where `needle` stands in the lower-case
/// form of `s` and is not the tail of a longer name. The search goes on behind
/// each occurrence that is.
pub open spec fn find_param(s: Seq<char>, needle: Seq<char>, from: int, boundary: NameBoundary) -> Option<int>
    decreases s.len() - from,
{
    match find_text(lower(s), needle, from) {
        None => None,
        Some(at) => if at_boundary(lower(s), at, boundary) {
            Some(at)
        } else if needle.len() > 0 && from <= at && at + needle.len() <= s.len() {
            find_param(s, needle, at + needle.len(), boundary)
        } else {
            None
        },
    }
}

/// A parameter value at the start of `rest`: up to the closing quote where it
/// opens with a quote, else up to the next comma without surrounding space.
pub open spec fn param_value(rest: Seq<char>) -> Option<Seq<char>> {
    if rest.len() > 0 && rest[0] == '"' {
        let end = find_char(rest, '"', 1);
        if end < rest.len() {
            Some(rest.subrange(1, end))
        } else {
            None
        }
    } else {
        Some(trim(rest.take(find_char(rest, ',', 0))))
    }
}

/// The value of the parameter whose name and equals sign are `needle`.
pub open spec fn param(s: Seq<char>, needle: Seq<char>, boundary: NameBoundary) -> Option<Seq<char>> {
    match find_param(s, needle, 0, boundary) {
        Some(at) => param_value(s.skip(at + needle.len())),
        None => None,
    }
}

pub open spec fn username_of(s: Seq<char>) -> Option<Seq<char>> {
    param(s, "username="@, NameBoundary::Anywhere)
}

pub open spec fn response_of(s: Seq<char>) -> Option<Seq<char>> {
    param(s, "response="@, NameBoundary::Anywhere)
}

pub open spec fn nonce_of(s: Seq<char>) -> Option<Seq<char>> {
    param(s, "nonce="@, NameBoundary::NotAlphabetic)
}

pub open spec fn digest_param(s: Seq<char>, name: Seq<char>) -> Option<Seq<char>> {
    param(s, name + "="@, NameBoundary::NotAlphanumeric)
}

fn is_at_boundary(chars: &Vec<char>, at: usize, boundary: NameBoundary) -> (r: bool)
    requires
        at <= chars@.len(),
    ensures
        r == at_boundary(chars@, at as int, boundary),
{
    if at == 0 {
        return true;
    }
    match boundary {
        NameBoundary::Anywhere => true,
        NameBoundary::NotAlphanumeric => !char_is_alphanumeric(chars[at - 1]),
        NameBoundary::NotAlphabetic => !char_is_alpha(chars[at - 1]),
    }
}

/// Reads a parameter value, quoted or not, at position `at`.
fn parse_param_value(chars: &Vec<char>, at: usize) -> (r: Option<String>)
    requires
        at <= chars@.len(),
    ensures
        opt_text(r) == param_value(chars@.skip(at as int)),
{
    let ghost rest = chars@.skip(at as int);
    if at < chars.len() && chars[at] == '"' {
        let end = find_char_in(chars, '"', at + 1);
        proof {
            lemma_find_char_range(chars@, '"', at + 1);
            assert forall|k: int| 1 <= k < end - at implies rest[k] != '"' by {
                assert(rest[k] == chars@[at + k]);
            }
            lemma_find_char_is(rest, '"', 1, end - at);
        }
        if end < chars.len() {
            let value = string_between(chars, at + 1, end);
            assert(value@ =~= rest.subrange(1, end - at));
            Some(value)
        } else {
            None
        }
    } else {
        let end = find_char_in(chars, ',', at);
        proof {
            lemma_find_char_range(chars@, ',', at as int);
            assert forall|k: int| 0 <= k < end - at implies rest[k] != ',' by {
                assert(rest[k] == chars@[at + k]);
            }
            lemma_find_char_is(rest, ',', 0, end - at);
            assert(rest.take(end - at) =~= chars@.subrange(at as int, end as int));
        }
        let (from, to) = trim_bounds(chars, at, end);
        Some(string_between(chars, from, to))
    }
}

fn extract_param(value: &str, needle: &str, boundary: NameBoundary) -> (r: Option<String>)
    requires
        needle@.len() > 0,
    ensures
        opt_text(r) == param(value@, needle@, boundary),
{
    let chars = chars_of(value);
    let lowered_text = to_lower(value);
    let lowered = chars_of(&lowered_text);
    let name = chars_of(needle);
    let mut from: usize = 0;
    loop
        invariant
            from <= chars@.len(),
            chars@ == value@,
            lowered@ == lower(value@),
            name@ == needle@,
            needle@.len() > 0,
            find_param(value@, needle@, 0, boundary) == find_param(
                value@,
                needle@,
                from as int,
                boundary,
            ),
        decreases chars@.len() - from,
    {
        match find_text_in(&lowered, &name, from) {
            None => {
                return None;
            },
            Some(at) => {
                assert(at + name.len() <= lowered.len());
                if is_at_boundary(&lowered, at, boundary) {
                    return parse_param_value(&chars, at + name.len());
                }
                from = at + name.len();
            },
        }
    }
}

/// The value of a named parameter of a Digest header value. A name that is the
/// tail of a longer one does not count; the name is matched in lower case.
pub fn extract_digest_param(auth_value: &str, name: &str) -> (r: Option<String>)
    ensures
        opt_text(r) == digest_param(auth_value@, name@),
{
    let needle = name.to_owned().concat("=");
    proof {
        reveal_strlit("=");
    }
    extract_param(auth_value, &needle, NameBoundary::NotAlphanumeric)
}

/// The `response` parameter of an `Authorization` value.
pub fn extract_response_field(auth_value: &str) -> (r: Option<String>)
    ensures
        opt_text(r) == response_of(auth_value@),
{
    proof {
        reveal_strlit("response=");
    }
    extract_param(auth_value, "response=", NameBoundary::Anywhere)
}

/// The `username` parameter of an `Authorization` value.
pub fn extract_username(auth_value: &str) -> (r: Option<String>)
    ensures
        opt_text(r) == username_of(auth_value@),
{
    proof {
        reveal_strlit("username=");
    }
    extract_param(auth_value, "username=", NameBoundary::Anywhere)
}

/// The `nonce` parameter of an `Authorization` value; `cnonce` does not count.
pub fn extract_nonce_field(auth_value: &str) -> (r: Option<String>)
    ensures
        opt_text(r) == nonce_of(auth_value@),
{
    proof {
        reveal_strlit("nonce=");
    }
    extract_param(auth_value, "nonce=", NameBoundary::NotAlphabetic)
}

/// The algorithm that an `algorithm` value names. The name is taken in upper
/// case with hyphens for underscores; MD5 where there is none or it is unknown.
pub open spec fn algorithm_of(value: Option<Seq<char>>) -> DigestAlgorithm {
    match value {
        None => DigestAlgorithm::Md5,
        Some(raw) => {
            let name = replaced(uppercase(raw), '_', '-');
            if name == "MD5-SESS"@ {
                DigestAlgorithm::Md5Sess
            } else if name == "SHA-256"@ || name == "SHA256"@ {
                DigestAlgorithm::Sha256
            } else if name == "SHA-256-SESS"@ || name == "SHA256-SESS"@ {
                DigestAlgorithm::Sha256Sess
            } else if name == "SHA-512-256"@ || name == "SHA512-256"@ {
                DigestAlgorithm::Sha512_256
            } else if name == "SHA-512-256-SESS"@ || name == "SHA512-256-SESS"@ {
                DigestAlgorithm::Sha512_256Sess
            } else {
                DigestAlgorithm::Md5
            }
        },
    }
}

/// Reads an `algorithm` value; MD5 where there is none or it is unknown.
pub fn parse_algorithm(value: Option<&str>) -> (r: DigestAlgorithm)
    ensures
        r == algorithm_of(opt_str(value)),
{
    let raw = match value {
        Some(raw) => raw,
        None => {
            return DigestAlgorithm::Md5;
        },
    };
    let upper = to_unicode_upper(raw);
    let name = replace_char(&upper, '_', '-');
    if same_text(&name, "MD5-SESS") {
        DigestAlgorithm::Md5Sess
    } else if same_text(&name, "SHA-256") || same_text(&name, "SHA256") {
        DigestAlgorithm::Sha256
    } else if same_text(&name, "SHA-256-SESS") || same_text(&name, "SHA256-SESS") {
        DigestAlgorithm::Sha256Sess
    } else if same_text(&name, "SHA-512-256") || same_text(&name, "SHA512-256") {
        DigestAlgorithm::Sha512_256
    } else if same_text(&name, "SHA-512-256-SESS") || same_text(&name, "SHA512-256-SESS") {
        DigestAlgorithm::Sha512_256Sess
    } else {
        DigestAlgorithm::Md5
    }
}

/// The fields of a Digest `Authorization` value.
pub struct DigestText {
    pub username: Seq<char>,
    pub realm: Seq<char>,
    pub nonce: Seq<char>,
    pub uri: Seq<char>,
    pub response: Seq<char>,
    pub qop: Option<Seq<char>>,
    pub cnonce: Option<Seq<char>>,
    pub nc: Option<Seq<char>>,
    pub algorithm: DigestAlgorithm,
}

/// The fields of an `Authorization` value: there are fields exactly where the
/// username, realm, nonce, URI and response can all be read.
pub open spec fn digest_fields(value: Seq<char>) -> Option<DigestText> {
    match (
        username_of(value),
        digest_param(value, "realm"@),
        nonce_of(value),
        digest_param(value, "uri"@),
        response_of(value),
    ) {
        (Some(username), Some(realm), Some(nonce), Some(uri), Some(response)) => Some(
            DigestText {
                username,
                realm,
                nonce,
                uri,
                response,
                qop: digest_param(value, "qop"@),
                cnonce: digest_param(value, "cnonce"@),
                nc: digest_param(value, "nc"@),
                algorithm: algorithm_of(digest_param(value, "algorithm"@)),
            },
        ),
        _ => None,
    }
}

/// `username:realm:password`, what HA1 is the hash of.
pub open spec fn ha1_input(username: Seq<char>, realm: Seq<char>, password: Seq<char>) -> Seq<char> {
    username + ":"@ + realm + ":"@ + password
}

/// The response that proves knowledge of `ha1` for a request of `method`.
pub open spec fn expected_response(f: DigestText, ha1: Seq<char>, method: Seq<char>) -> Seq<char> {
    let ha2 = hash_text(f.algorithm, encode_utf8(method + ":"@ + f.uri));
    if f.qop == Some("auth"@) {
        let nc = match f.nc {
            Some(nc) => nc,
            None => "00000001"@,
        };
        let cnonce = match f.cnonce {
            Some(cnonce) => cnonce,
            None => ""@,
        };
        hash_text(
            f.algorithm,
            encode_utf8(ha1 + ":"@ + f.nonce + ":"@ + nc + ":"@ + cnonce + ":auth:"@ + ha2),
        )
    } else {
        hash_text(f.algorithm, encode_utf8(ha1 + ":"@ + f.nonce + ":"@ + ha2))
    }
}

/// Whether the response of `f` is the one that `ha1` calls for, up to the case
/// of its hexadecimal digits.
pub open spec fn response_matches(f: DigestText, ha1: Seq<char>, method: Seq<char>) -> bool {
    lower(expected_response(f, ha1, method)) == lower(f.response)
}

/// A parsed Digest `Authorization` value.
pub struct DigestFields {
    pub username: String,
    pub realm: String,
    pub nonce: String,
    pub uri: String,
    pub response: String,
    pub qop: Option<String>,
    pub cnonce: Option<String>,
    pub nc: Option<String>,
    pub algorithm: DigestAlgorithm,
}

impl View for DigestFields {
    type V = DigestText;

    open spec fn view(&self) -> DigestText {
        DigestText {
            username: self.username@,
            realm: self.realm@,
            nonce: self.nonce@,
            uri: self.uri@,
            response: self.response@,
            qop: opt_text(self.qop),
            cnonce: opt_text(self.cnonce),
            nc: opt_text(self.nc),
            algorithm: self.algorithm,
        }
    }
}

impl DigestFields {
    /// Reads the fields of an `Authorization` value.
    pub fn parse(auth_value: &str) -> (r: Option<DigestFields>)
        ensures
            match r {
                Some(fields) => digest_fields(auth_value@) == Some(fields@),
                None => digest_fields(auth_value@) is None,
            },
    {
        let algorithm_name = extract_digest_param(auth_value, "algorithm");
        let algorithm = match &algorithm_name {
            Some(name) => parse_algorithm(Some(name.as_str())),
            None => parse_algorithm(None),
        };
        let username = match extract_username(auth_value) {
            Some(v) => v,
            None => { return None; },
        };
        let realm = match extract_digest_param(auth_value, "realm") {
            Some(v) => v,
            None => { return None; },
        };
        let nonce = match extract_nonce_field(auth_value) {
            Some(v) => v,
            None => { return None; },
        };
        let uri = match extract_digest_param(auth_value, "uri") {
            Some(v) => v,
            None => { return None; },
        };
        let response = match extract_response_field(auth_value) {
            Some(v) => v,
            None => { return None; },
        };
        Some(DigestFields {
            username,
            realm,
            nonce,
            uri,
            response,
            qop: extract_digest_param(auth_value, "qop"),
            cnonce: extract_digest_param(auth_value, "cnonce"),
            nc: extract_digest_param(auth_value, "nc"),
            algorithm,
        })
    }

    /// Verifies the response against a known HA1, which has to be hashed with
    /// the algorithm of these fields.
    pub fn verify(&self, ha1: &str, method: &str) -> (r: bool)
        ensures
            r == response_matches(self@, ha1@, method@),
    {
        let ha2_input = method.to_owned().concat(":").concat(&self.uri);
        let ha2 = hash_hex(self.algorithm, ha2_input.as_str().as_bytes());
        let with_qop = match &self.qop {
            Some(qop) => same_text(qop, "auth"),
            None => false,
        };
        let expected = if with_qop {
            let nc: &str = match &self.nc {
                Some(nc) => nc.as_str(),
                None => "00000001",
            };
            let cnonce: &str = match &self.cnonce {
                Some(cnonce) => cnonce.as_str(),
                None => "",
            };
            let input = ha1.to_owned().concat(":").concat(&self.nonce).concat(":").concat(nc).concat(
                ":",
            ).concat(cnonce).concat(":auth:").concat(&ha2);
            hash_hex(self.algorithm, input.as_str().as_bytes())
        } else {
            let input = ha1.to_owned().concat(":").concat(&self.nonce).concat(":").concat(&ha2);
            hash_hex(self.algorithm, input.as_str().as_bytes())
        };
        same_ignoring_case(&expected, &self.response)
    }
}

/// MD5 of a text, in hexadecimal.
pub fn md5_hex(input: &str) -> (r: String)
    ensures
        r@ == hash_text(DigestAlgorithm::Md5, encode_utf8(input@)),
{
    hash_hex(DigestAlgorithm::Md5, input.as_bytes())
}

/// HA1 from a plaintext password, hashed with the given algorithm.
pub fn password_ha1(algorithm: DigestAlgorithm, username: &str, realm: &str, password: &str) -> (r: String)
    ensures
        r@ == hash_text(algorithm, encode_utf8(ha1_input(username@, realm@, password@))),
{
    let input = username.to_owned().concat(":").concat(realm).concat(":").concat(password);
    hash_hex(algorithm, input.as_str().as_bytes())
}

/// The bytes that HA1 is the hash of where the password is raw bytes.
pub open spec fn aka_ha1_input(username: Seq<char>, realm: Seq<char>, password: Seq<u8>) -> Seq<u8> {
    encode_utf8(username) + encode_utf8(":"@) + encode_utf8(realm) + encode_utf8(":"@) + password
}

/// HA1 of AKAv1-MD5 (RFC 3310): the password is the raw bytes of the expected
/// response, neither hexadecimal nor base64.
pub open spec fn aka_ha1(username: Seq<char>, realm: Seq<char>, password: Seq<u8>) -> Seq<char> {
    hash_text(DigestAlgorithm::Md5, aka_ha1_input(username, realm, password))
}

/// HA1 with raw bytes as the password.
pub fn md5_ha1_aka(username: &str, realm: &str, password_bytes: &[u8]) -> (r: String)
    ensures
        r@ == aka_ha1(username@, realm@, password_bytes@),
{
    let mut input: Vec<u8> = Vec::new();
    input.extend_from_slice(username.as_bytes());
    input.extend_from_slice(":".as_bytes());
    input.extend_from_slice(realm.as_bytes());
    input.extend_from_slice(":".as_bytes());
    input.extend_from_slice(password_bytes);
    assert(input@ =~= aka_ha1_input(username@, realm@, password_bytes@));
    hash_hex(DigestAlgorithm::Md5, input.as_slice())
}

/// The URI in a header value such as From: what stands between angle brackets,
/// else what stands before the first semicolon without surrounding space.
pub open spec fn bare_uri(s: Seq<char>) -> Seq<char> {
    let start = find_char(s, '<', 0);
    let end = find_char(s, '>', start);
    if start < s.len() && end < s.len() {
        s.subrange(start + 1, end)
    } else {
        trim(s.take(find_char(s, ';', 0)))
    }
}

/// The URI of a header value, without display name, angle brackets and
/// header parameters.
pub fn extract_sip_uri(header_value: &str) -> (r: String)
    ensures
        r@ == bare_uri(header_value@),
{
    let chars = chars_of(header_value);
    let start = find_char_in(&chars, '<', 0);
    if start < chars.len() {
        let end = find_char_in(&chars, '>', start);
        if end < chars.len() {
            assert(start < end);
            return string_between(&chars, start + 1, end);
        }
    }
    let end = find_char_in(&chars, ';', 0);
    let (from, to) = trim_bounds(&chars, 0, end);
    assert(chars@.subrange(0, end as int) =~= chars@.take(end as int));
    string_between(&chars, from, to)
}

/// The user part of the SIP URI in a From or To value.
pub open spec fn user_of_header(s: Seq<char>) -> Option<Seq<char>> {
    let start = find_char(s, '<', 0);
    let uri = if start < s.len() {
        let end = find_char(s, '>', start);
        if end < s.len() {
            Some(s.subrange(start + 1, end))
        } else {
            None
        }
    } else {
        Some(s.take(find_char(s, ';', 0)))
    };
    match uri {
        Some(u) => if starts_with(u, "sip:"@) {
            Some(before_at(u.skip("sip:"@.len() as int)))
        } else if starts_with(u, "sips:"@) {
            Some(before_at(u.skip("sips:"@.len() as int)))
        } else {
            None
        },
        None => None,
    }
}

/// What stands before the first `@`, or the whole text.
pub open spec fn before_at(s: Seq<char>) -> Seq<char> {
    s.take(find_char(s, '@', 0))
}

/// Cuts a text at the first `@`.
pub fn cut_at_sign(s: &str) -> (r: String)
    ensures
        r@ == before_at(s@),
{
    let chars = chars_of(s);
    let end = find_char_in(&chars, '@', 0);
    let r = string_between(&chars, 0, end);
    assert(r@ =~= before_at(s@));
    r
}

/// The user part of the SIP URI in a From or To value; `None` where there is no
/// `sip:` or `sips:` URI.
pub fn extract_username_from_uri(header_value: &str) -> (r: Option<String>)
    ensures
        opt_text(r) == user_of_header(header_value@),
{
    let chars = chars_of(header_value);
    let start = find_char_in(&chars, '<', 0);
    let uri = if start < chars.len() {
        let end = find_char_in(&chars, '>', start);
        if end >= chars.len() {
            return None;
        }
        assert(start < end);
        string_between(&chars, start + 1, end)
    } else {
        let end = find_char_in(&chars, ';', 0);
        let bare = string_between(&chars, 0, end);
        assert(bare@ =~= chars@.take(end as int));
        bare
    };
    match strip_prefix(&uri, "sip:") {
        Some(rest) => Some(cut_at_sign(&rest)),
        None => match strip_prefix(&uri, "sips:") {
            Some(rest) => Some(cut_at_sign(&rest)),
            None => None,
        },
    }
}

} // verus!
