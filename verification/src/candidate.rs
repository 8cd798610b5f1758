//! Candidates: a fixed header followed by the decimal text of a nonce.

use vstd::prelude::*;

verus! {

/// The decimal ASCII digits of `n`, most significant first, no leading
/// zeros (a single `0` for zero itself).
pub open spec fn dec_of(n: nat) -> Seq<u8>
    decreases n,
{
    if n < 10 {
        seq![(48 + n) as u8]
    } else {
        dec_of(n / 10).push((48 + n % 10) as u8)
    }
}

/// The serialized form of a candidate: the header bytes followed by the
/// decimal text of the nonce.
pub open spec fn candidate_of(header: Seq<u8>, nonce: u32) -> Seq<u8> {
    header + dec_of(nonce as nat)
}

/// Renders `n` in decimal, most significant digit first.
pub fn decimal_digits(n: u32) -> (r: Vec<u8>)
    ensures
        r@ == dec_of(n as nat),
    decreases n,
{
    let mut r: Vec<u8> = if n >= 10 {
        decimal_digits(n / 10)
    } else {
        Vec::new()
    };
    r.push(48 + (n % 10) as u8);
    r
}

/// Serializes the candidate for the given nonce: header bytes, then the
/// nonce's decimal digits.
pub fn candidate_bytes(header: &Vec<u8>, nonce: u32) -> (r: Vec<u8>)
    ensures
        r@ == candidate_of(header@, nonce),
{
    let mut r: Vec<u8> = Vec::new();
    let mut i: usize = 0;
    while i < header.len()
        invariant
            i <= header.len(),
            r@.len() == i,
            forall|j: int| 0 <= j < i ==> r@[j] == header@[j],
        decreases header.len() - i,
    {
        r.push(header[i]);
        i += 1;
    }
    proof {
        assert(r@ =~= header@);
    }
    let mut digits = decimal_digits(nonce);
    r.append(&mut digits);
    r
}

} // verus!
