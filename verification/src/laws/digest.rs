//! Laws of digest authentication.

use crate::digest::{expected_response, password_ha1, DigestFields};
use crate::hash::{md5_of, sha256_of, sha512_256_of, DigestAlgorithm};
use crate::hex::hex_text;
use crate::text::lower;
use vstd::prelude::*;
use vstd::string::*;
use vstd::utf8::encode_utf8;

verus! {

/// The parts in their order, with a colon between each and the next.
pub open spec fn colon_joined(parts: Seq<Seq<char>>) -> Seq<char>
    decreases parts.len(),
{
    if parts.len() == 0 {
        Seq::empty()
    } else if parts.len() == 1 {
        parts[0]
    } else {
        parts[0] + seq![':'] + colon_joined(parts.skip(1))
    }
}

/// The hexadecimal hash of a text's UTF-8 bytes: MD5, SHA-256 or SHA-512/256 as
/// the algorithm says, with or without its session variant.
pub open spec fn hashed(algorithm: DigestAlgorithm, text: Seq<char>) -> Seq<char> {
    hex_text(
        match algorithm {
            DigestAlgorithm::Md5 | DigestAlgorithm::Md5Sess => md5_of(encode_utf8(text)),
            DigestAlgorithm::Sha256 | DigestAlgorithm::Sha256Sess => sha256_of(encode_utf8(text)),
            DigestAlgorithm::Sha512_256 | DigestAlgorithm::Sha512_256Sess => sha512_256_of(
                encode_utf8(text),
            ),
        },
    )
}

/// A text, or another in its absence.
pub open spec fn given_or(value: Option<String>, otherwise: Seq<char>) -> Seq<char> {
    match value {
        Some(text) => text@,
        None => otherwise,
    }
}

proof fn lemma_two_parts(a: Seq<char>, b: Seq<char>)
    ensures
        colon_joined(seq![a, b]) == a + ":"@ + b,
{
    reveal_strlit(":");
    reveal_with_fuel(colon_joined, 3);
    assert(seq![a, b].skip(1) =~= seq![b]);
    assert(colon_joined(seq![a, b]) =~= a + ":"@ + b);
}

proof fn lemma_three_parts(a: Seq<char>, b: Seq<char>, c: Seq<char>)
    ensures
        colon_joined(seq![a, b, c]) == a + ":"@ + b + ":"@ + c,
{
    reveal_strlit(":");
    reveal_with_fuel(colon_joined, 2);
    lemma_two_parts(b, c);
    assert(seq![a, b, c].skip(1) =~= seq![b, c]);
    assert(colon_joined(seq![a, b, c]) =~= a + ":"@ + b + ":"@ + c);
}

proof fn lemma_six_parts(
    ha1: Seq<char>,
    nonce: Seq<char>,
    nc: Seq<char>,
    cnonce: Seq<char>,
    ha2: Seq<char>,
)
    ensures
        colon_joined(seq![ha1, nonce, nc, cnonce, "auth"@, ha2]) == ha1 + ":"@ + nonce + ":"@ + nc
            + ":"@ + cnonce + ":auth:"@ + ha2,
{
    reveal_strlit(":");
    reveal_strlit("auth");
    reveal_strlit(":auth:");
    reveal_with_fuel(colon_joined, 2);
    let all = seq![ha1, nonce, nc, cnonce, "auth"@, ha2];
    lemma_three_parts(cnonce, "auth"@, ha2);
    assert(all.skip(1) =~= seq![nonce, nc, cnonce, "auth"@, ha2]);
    assert(all.skip(1).skip(1) =~= seq![nc, cnonce, "auth"@, ha2]);
    assert(all.skip(1).skip(1).skip(1) =~= seq![cnonce, "auth"@, ha2]);
    assert(colon_joined(all.skip(1).skip(1)) == nc + seq![':'] + colon_joined(
        all.skip(1).skip(1).skip(1),
    ));
    assert(colon_joined(all.skip(1)) == nonce + seq![':'] + colon_joined(all.skip(1).skip(1)));
    assert(colon_joined(all) == ha1 + seq![':'] + colon_joined(all.skip(1)));
    assert(":auth:"@ =~= ":"@ + "auth"@ + ":"@);
    assert(colon_joined(all) =~= ha1 + ":"@ + nonce + ":"@ + nc + ":"@ + cnonce + ":auth:"@ + ha2);
}

/// With `qop=auth` a response is accepted exactly when it is, in any case, the
/// hash of HA1, the nonce, the nonce count, the client's nonce, `auth` and the
/// hash of method and URI, joined by colons in that order; a missing nonce
/// count stands for the first, a missing client nonce for an empty one.
pub proof fn protected_response_is_the_hash_of_its_parts(
    fields: DigestFields,
    ha1: &str,
    method: &str,
    accepted: bool,
)
    requires
        fields.qop matches Some(qop) && qop@ == "auth"@,
        call_ensures(DigestFields::verify, (&fields, ha1, method), accepted),
    ensures
        accepted <==> lower(fields.response@) == lower(
            hashed(
                fields.algorithm,
                colon_joined(
                    seq![
                        ha1@,
                        fields.nonce@,
                        given_or(fields.nc, "00000001"@),
                        given_or(fields.cnonce, ""@),
                        "auth"@,
                        hashed(fields.algorithm, colon_joined(seq![method@, fields.uri@])),
                    ],
                ),
            ),
        ),
{
    let ha2 = hashed(fields.algorithm, colon_joined(seq![method@, fields.uri@]));
    let nc = given_or(fields.nc, "00000001"@);
    let cnonce = given_or(fields.cnonce, ""@);
    lemma_two_parts(method@, fields.uri@);
    lemma_six_parts(ha1@, fields.nonce@, nc, cnonce, ha2);
    assert(fields@.qop == Some("auth"@));
    assert(hashed(
        fields.algorithm,
        colon_joined(seq![ha1@, fields.nonce@, nc, cnonce, "auth"@, ha2]),
    ) == expected_response(fields@, ha1@, method@));
}

/// Without `qop=auth` a response is accepted exactly when it is, in any case,
/// the hash of HA1, the nonce and the hash of method and URI, joined by colons
/// in that order.
pub proof fn plain_response_is_the_hash_of_its_parts(
    fields: DigestFields,
    ha1: &str,
    method: &str,
    accepted: bool,
)
    requires
        !(fields.qop matches Some(qop) && qop@ == "auth"@),
        call_ensures(DigestFields::verify, (&fields, ha1, method), accepted),
    ensures
        accepted <==> lower(fields.response@) == lower(
            hashed(
                fields.algorithm,
                colon_joined(
                    seq![
                        ha1@,
                        fields.nonce@,
                        hashed(fields.algorithm, colon_joined(seq![method@, fields.uri@])),
                    ],
                ),
            ),
        ),
{
    let ha2 = hashed(fields.algorithm, colon_joined(seq![method@, fields.uri@]));
    lemma_two_parts(method@, fields.uri@);
    lemma_three_parts(ha1@, fields.nonce@, ha2);
}

/// A password's HA1 is the hash of user name, realm and password, joined by
/// colons in that order.
pub proof fn password_hash_is_of_its_parts(
    algorithm: DigestAlgorithm,
    username: &str,
    realm: &str,
    password: &str,
    ha1: String,
)
    requires
        call_ensures(password_ha1, (algorithm, username, realm, password), ha1),
    ensures
        ha1@ == hashed(algorithm, colon_joined(seq![username@, realm@, password@])),
{
    lemma_three_parts(username@, realm@, password@);
}

} // verus!
