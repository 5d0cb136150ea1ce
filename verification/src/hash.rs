//! Digest algorithms and the hash functions behind them.

use crate::hex::{hex_encode, hex_text};
use vstd::prelude::*;

verus! {

/// The digest algorithms of RFC 2617 and RFC 7616.
#[derive(Clone, Copy, PartialEq, Eq, Structural)]
pub enum DigestAlgorithm {
    Md5,
    Md5Sess,
    Sha256,
    Sha256Sess,
    Sha512_256,
    Sha512_256Sess,
}

/// The MD5 digest of a byte sequence.
pub uninterp spec fn md5_of(data: Seq<u8>) -> Seq<u8>;

/// The SHA-256 digest of a byte sequence.
pub uninterp spec fn sha256_of(data: Seq<u8>) -> Seq<u8>;

/// The SHA-512/256 digest of a byte sequence.
pub uninterp spec fn sha512_256_of(data: Seq<u8>) -> Seq<u8>;

/// `md5::compute`: the sixteen bytes of the MD5 digest.
#[verifier::external_body]
pub(crate) fn md5_compute(data: &[u8]) -> (r: Vec<u8>)
    ensures
        r@ == md5_of(data@),
        r@.len() == 16,
{
    md5::compute(data).0.to_vec()
}

/// `sha2::Sha256::digest`: the thirty-two bytes of the SHA-256 digest.
#[verifier::external_body]
fn sha256_compute(data: &[u8]) -> (r: Vec<u8>)
    ensures
        r@ == sha256_of(data@),
        r@.len() == 32,
{
    <sha2::Sha256 as sha2::Digest>::digest(data).to_vec()
}

/// `sha2::Sha512_256::digest`: the thirty-two bytes of the SHA-512/256 digest.
#[verifier::external_body]
fn sha512_256_compute(data: &[u8]) -> (r: Vec<u8>)
    ensures
        r@ == sha512_256_of(data@),
        r@.len() == 32,
{
    <sha2::Sha512_256 as sha2::Digest>::digest(data).to_vec()
}

/// The hash of a byte sequence under an algorithm; a session variant uses the
/// same hash function as its base.
pub open spec fn hash_of(algorithm: DigestAlgorithm, data: Seq<u8>) -> Seq<u8> {
    match algorithm {
        DigestAlgorithm::Md5 | DigestAlgorithm::Md5Sess => md5_of(data),
        DigestAlgorithm::Sha256 | DigestAlgorithm::Sha256Sess => sha256_of(data),
        DigestAlgorithm::Sha512_256 | DigestAlgorithm::Sha512_256Sess => sha512_256_of(data),
    }
}

/// The hash as lower-case hexadecimal text.
pub open spec fn hash_text(algorithm: DigestAlgorithm, data: Seq<u8>) -> Seq<char> {
    hex_text(hash_of(algorithm, data))
}

/// Hashes bytes under an algorithm and writes the digest in hexadecimal.
pub fn hash_hex(algorithm: DigestAlgorithm, data: &[u8]) -> (r: String)
    ensures
        r@ == hash_text(algorithm, data@),
{
    let digest = match algorithm {
        DigestAlgorithm::Md5 | DigestAlgorithm::Md5Sess => md5_compute(data),
        DigestAlgorithm::Sha256 | DigestAlgorithm::Sha256Sess => sha256_compute(data),
        DigestAlgorithm::Sha512_256 | DigestAlgorithm::Sha512_256Sess => sha512_256_compute(data),
    };
    hex_encode(digest.as_slice())
}

} // verus!
