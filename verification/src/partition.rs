//! The static partition of the key space among workers.
//!
//! Worker `k` of `n` owns the arithmetic progression starting at `k` with
//! stride `n`.  Every 32-bit key belongs to exactly one worker's slice —
//! the slices cover the key space and are pairwise disjoint — and, within
//! a bounded scan, a key below `n * limit` is reached by its owner within
//! `limit` steps.

use vstd::prelude::*;
use vstd::arithmetic::div_mod::lemma_fundamental_div_mod;
use vstd::arithmetic::div_mod::lemma_fundamental_div_mod_converse_mod;
use crate::worker::key_qualifies;
use crate::worker::nth_key;
use crate::worker::lemma_nth_key_no_wrap;
use crate::worker::scanned_clean;

verus! {

/// Whether key `x` belongs to the slice of worker `k` out of `n`.
pub open spec fn in_slice(k: u32, n: u32, x: u32) -> bool
    recommends
        n >= 1,
{
    x % n == k
}

/// Produces the partition scheme for `count` workers: pair `k` is the
/// starting key and stride of worker `k`'s progression.
pub fn partition(count: u32) -> (r: Vec<(u32, u32)>)
    requires
        count >= 1,
    ensures
        r@.len() == count,
        forall|k: int| 0 <= k < count ==> r@[k] == (k as u32, count),
{
    let mut r: Vec<(u32, u32)> = Vec::new();
    let mut k: u32 = 0;
    while k < count
        invariant
            k <= count,
            r@.len() == k,
            forall|j: int| 0 <= j < k ==> r@[j] == (j as u32, count),
        decreases count - k,
    {
        r.push((k, count));
        k = k + 1;
    }
    r
}

/// Every key is owned by some worker: the slices cover the key space.
pub proof fn lemma_partition_covers(n: u32, x: u32)
    requires
        n >= 1,
    ensures
        in_slice(x % n, n, x),
        x % n < n,
{
}

/// No key is owned by two workers: the slices are pairwise disjoint.
pub proof fn lemma_partition_disjoint(n: u32, k1: u32, k2: u32, x: u32)
    requires
        n >= 1,
        in_slice(k1, n, x),
        in_slice(k2, n, x),
    ensures
        k1 == k2,
{
}

/// A worker's slice is exactly its arithmetic progression: `x` lies in
/// slice `k` of `n` precisely when `x == k + i * n` for some step `i`.
pub proof fn lemma_slice_is_progression(k: u32, n: u32, x: u32)
    requires
        n >= 1,
        k < n,
    ensures
        in_slice(k, n, x) <==> exists|i: nat| x == k + #[trigger] (i * n),
{
    if in_slice(k, n, x) {
        lemma_fundamental_div_mod(x as int, n as int);
        let q = (x as int) / (n as int);
        assert(x == n * q + k);
        assert(n * q == q * n) by (nonlinear_arith);
        assert(q >= 0) by (nonlinear_arith)
            requires
                n * q + k == x, 0 <= x, 0 <= k < n,
        ;
        assert(x == k + (q as nat) * n);
    }
    if exists|i: nat| x == k + #[trigger] (i * n) {
        let i = choose|i: nat| x == k + #[trigger] (i * n);
        lemma_fundamental_div_mod_converse_mod(x as int, n as int, i as int, k as int);
    }
}

/// A bounded multi-worker scan misses nothing: if no worker found a
/// qualifying key within `limit` steps, then no key below `n * limit`
/// qualifies at all.
pub proof fn lemma_bounded_coverage(
    header: Seq<u8>,
    target: Seq<u8>,
    n: u32,
    limit: u64,
    x: u32,
)
    requires
        n >= 1,
        x < n * limit,
        forall|k: u32| k < n ==> scanned_clean(header, target, k, n, limit as nat),
    ensures
        !key_qualifies(header, target, x),
{
    let k = x % n;
    let j = (x as int) / (n as int);
    lemma_fundamental_div_mod(x as int, n as int);
    assert(x == n * j + k);
    assert(j >= 0 && n * j == j * n) by (nonlinear_arith)
        requires
            n * j + k == x, 0 <= x, 0 <= k < n,
    ;
    assert(j < limit) by (nonlinear_arith)
        requires
            n * j + k == x, x < n * limit, 0 <= k, n >= 1, j >= 0,
    ;
    assert(k + (j as nat) * n == x);
    lemma_nth_key_no_wrap(k, n, j as nat);
    assert(nth_key(k, n, j as nat) == x);
    assert(scanned_clean(header, target, k, n, limit as nat));
    assert(!key_qualifies(header, target, nth_key(k, n, j as nat)));
}

} // verus!
