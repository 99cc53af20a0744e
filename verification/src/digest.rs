//! The digest provider: a cryptographic digest of a string's UTF-8 bytes,
//! written as base64 text.
//!
//! The hash functions themselves come from the `md5` and `sha2` crates and
//! are not modelled: their results are named, and everything built on them
//! is stated over those names.

use crate::config::HashAlgorithm;
use crate::encoding::{encode, encoded, lemma_encoded_len};
use sha2::{Digest, Sha512};
use vstd::prelude::*;
use vstd::utf8::encode_utf8;

verus! {

/// The MD5 digest of `data`, as `md5::compute` returns it.
pub uninterp spec fn md5_digest(data: Seq<u8>) -> [u8; 16];

/// The SHA-512 digest of `data`, as `sha2::Sha512` computes it.
pub uninterp spec fn sha512_digest(data: Seq<u8>) -> [u8; 64];

/// Calls `md5::compute` on `data` and hands out the sixteen bytes of the
/// `md5::Digest` it returns. Claimed: the result depends on `data` alone.
#[verifier::external_body]
fn md5_raw(data: &[u8]) -> (digest: [u8; 16])
    ensures
        digest == md5_digest(data@),
{
    md5::compute(data).0
}

/// Calls `Digest::digest` of `sha2::Sha512` on `data` and hands out the
/// sixty-four bytes of its output array. Claimed: the result depends on
/// `data` alone.
#[verifier::external_body]
fn sha512_raw(data: &[u8]) -> (digest: [u8; 64])
    ensures
        digest == sha512_digest(data@),
{
    Sha512::digest(data).into()
}

/// The raw digest of `data` under `algorithm`.
pub open spec fn digest_bytes(data: Seq<u8>, algorithm: HashAlgorithm) -> Seq<u8> {
    match algorithm {
        HashAlgorithm::MD5 => md5_digest(data)@,
        HashAlgorithm::SHA512 => sha512_digest(data)@,
    }
}

/// The base64 text of the digest of the UTF-8 bytes of `input`.
pub open spec fn digest_text(input: Seq<char>, algorithm: HashAlgorithm) -> Seq<char> {
    encoded(digest_bytes(encode_utf8(input), algorithm))
}

/// The number of characters of every digest text of `algorithm`: no round
/// can supply more.
pub open spec fn max_encoded_len(algorithm: HashAlgorithm) -> nat {
    match algorithm {
        HashAlgorithm::MD5 => 24,
        HashAlgorithm::SHA512 => 88,
    }
}

/// Every digest text has exactly `max_encoded_len` characters: 24 for the
/// sixteen bytes of MD5, 88 for the sixty-four bytes of SHA-512.
pub proof fn lemma_digest_text_len(input: Seq<char>, algorithm: HashAlgorithm)
    ensures
        digest_text(input, algorithm).len() == max_encoded_len(algorithm),
{
    lemma_encoded_len(digest_bytes(encode_utf8(input), algorithm));
}

/// The number of characters of every digest text of `algorithm`.
pub fn max_digest_len(algorithm: HashAlgorithm) -> (n: u8)
    ensures
        n == max_encoded_len(algorithm),
{
    match algorithm {
        HashAlgorithm::MD5 => 24,
        HashAlgorithm::SHA512 => 88,
    }
}

/// The MD5 digest of the UTF-8 bytes of `input`, as base64 text.
pub fn hash_md5(input: &str) -> (text: String)
    ensures
        text@ == digest_text(input@, HashAlgorithm::MD5),
        text@.len() == 24,
{
    let raw = md5_raw(input.as_bytes());
    encode(raw.as_slice())
}

/// The SHA-512 digest of the UTF-8 bytes of `input`, as base64 text.
pub fn hash_sha512(input: &str) -> (text: String)
    ensures
        text@ == digest_text(input@, HashAlgorithm::SHA512),
        text@.len() == 88,
{
    let raw = sha512_raw(input.as_bytes());
    encode(raw.as_slice())
}

/// The digest of the UTF-8 bytes of `input` under `algorithm`, as base64
/// text.
pub fn digest(input: &str, algorithm: HashAlgorithm) -> (text: String)
    ensures
        text@ == digest_text(input@, algorithm),
        text@.len() == max_encoded_len(algorithm),
{
    match algorithm {
        HashAlgorithm::MD5 => hash_md5(input),
        HashAlgorithm::SHA512 => hash_sha512(input),
    }
}

} // verus!
