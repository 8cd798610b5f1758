//! Scoring of candidates: a double SHA-256 digest rendered as lowercase
//! hexadecimal text, and the prefix test a winning score must pass.
//!
//! The digest itself is computed by the `sha2` crate and only named here;
//! the hex rendering by the `hex` crate, whose output is pinned down
//! exactly by `hex_of`.

use vstd::prelude::*;
use sha2::{Digest, Sha256};

verus! {

/// The 32-byte SHA-256 digest of the given bytes, as the `sha2` crate
/// computes it: named, not defined, since only the outside crate says
/// which bytes come out.
pub uninterp spec fn sha256_of(data: Seq<u8>) -> Seq<u8>;

/// The lowercase ASCII hex digit for a value below sixteen.
pub open spec fn hex_digit(v: u8) -> u8
    recommends
        v < 16,
{
    if v < 10 {
        (48 + v) as u8
    } else {
        (87 + v) as u8
    }
}

/// Lowercase hexadecimal text of a byte string: two digits per byte,
/// high nibble first.
pub open spec fn hex_of(data: Seq<u8>) -> Seq<u8> {
    Seq::new(
        data.len() * 2,
        |i: int|
            if i % 2 == 0 {
                hex_digit(data[i / 2] / 16)
            } else {
                hex_digit(data[i / 2] % 16)
            },
    )
}

/// The score of a serialized candidate: the lowercase hex text of the
/// digest of the digest of its bytes.
pub open spec fn score_of(data: Seq<u8>) -> Seq<u8> {
    hex_of(sha256_of(sha256_of(data)))
}

/// `p` is a prefix of `s`.
pub open spec fn starts_with(s: Seq<u8>, p: Seq<u8>) -> bool {
    p.len() <= s.len() && forall|i: int| 0 <= i < p.len() ==> s[i] == p[i]
}

/// Relies on sha2::Sha256 (through digest::Digest::digest): a
/// deterministic function of the input bytes alone, returning a 32-byte
/// digest.
#[verifier::external_body]
fn sha256(data: &Vec<u8>) -> (r: Vec<u8>)
    ensures
        r@ == sha256_of(data@),
        r@.len() == 32,
{
    Sha256::digest(data.as_slice()).to_vec()
}

/// Relies on hex::encode: lowercase hexadecimal, two digits per byte,
/// high nibble first.
#[verifier::external_body]
fn hex_lower(data: &Vec<u8>) -> (r: Vec<u8>)
    ensures
        r@ == hex_of(data@),
{
    hex::encode(data.as_slice()).into_bytes()
}

/// Scores a serialized candidate: the lowercase hex text of its double
/// SHA-256 digest, always 64 digits long.
pub fn hash2(data: &Vec<u8>) -> (r: Vec<u8>)
    ensures
        r@ == score_of(data@),
        r@.len() == 64,
{
    let first = sha256(data);
    let second = sha256(&first);
    hex_lower(&second)
}

/// Whether `s` starts with the prefix `p`, byte for byte.
pub fn has_prefix(s: &Vec<u8>, p: &Vec<u8>) -> (r: bool)
    ensures
        r == starts_with(s@, p@),
{
    if p.len() > s.len() {
        return false;
    }
    let mut i: usize = 0;
    while i < p.len()
        invariant
            i <= p.len(),
            p.len() <= s.len(),
            forall|j: int| 0 <= j < i ==> s@[j] == p@[j],
        decreases p.len() - i,
    {
        if s[i] != p[i] {
            return false;
        }
        i += 1;
    }
    true
}

/// Scoring is deterministic: equal inputs have equal scores, so repeated
/// scoring of the same candidate always agrees.
pub proof fn lemma_score_deterministic(a: Seq<u8>, b: Seq<u8>)
    requires
        a == b,
    ensures
        score_of(a) == score_of(b),
{
}

} // verus!
