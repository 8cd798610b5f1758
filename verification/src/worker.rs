//! A worker's walk over its own arithmetic progression of candidate keys.
//!
//! Worker `k` of `n` owns the keys `k, k + n, k + 2n, ...`, advancing with
//! wraparound; it scores each key, stops when the shared signal is raised,
//! and reports exhaustion when its budget runs out or its cursor returns
//! to its starting key after wrapping.

use vstd::prelude::*;
use crate::candidate::candidate_bytes;
use crate::candidate::candidate_of;
use crate::latch::Latch;
use crate::score::has_prefix;
use crate::score::hash2;
use crate::score::score_of;
use crate::score::starts_with;
use crate::signal::SharedSignal;

verus! {

/// The key a worker visits at step `i`: its starting key advanced `i`
/// strides, wrapping around the 32-bit key space.
pub open spec fn nth_key(start: u32, stride: u32, i: nat) -> u32
    decreases i,
{
    if i == 0 {
        start
    } else {
        vstd::wrapping::u32_specs::wrapping_add(nth_key(start, stride, (i - 1) as nat), stride)
    }
}

/// Whether a key wins: its candidate's score starts with the target.
pub open spec fn key_qualifies(header: Seq<u8>, target: Seq<u8>, nonce: u32) -> bool {
    starts_with(score_of(candidate_of(header, nonce)), target)
}

/// The first `n` steps of the worker's walk found no qualifying key.
pub open spec fn scanned_clean(
    header: Seq<u8>,
    target: Seq<u8>,
    start: u32,
    stride: u32,
    n: nat,
) -> bool {
    forall|j: nat|
        j < n ==> !key_qualifies(header, target, #[trigger] nth_key(start, stride, j))
}

/// As long as no wraparound occurs, the walk is plain arithmetic:
/// step `i` visits `start + i * stride`.
pub proof fn lemma_nth_key_no_wrap(start: u32, stride: u32, i: nat)
    requires
        start + i * stride <= u32::MAX,
    ensures
        nth_key(start, stride, i) == start + i * stride,
    decreases i,
{
    if i == 0 {
        assert(i * stride == 0) by (nonlinear_arith)
            requires
                i == 0,
        ;
    } else {
        assert((i - 1) * stride + stride == i * stride) by (nonlinear_arith);
        lemma_nth_key_no_wrap(start, stride, (i - 1) as nat);
        assert(nth_key(start, stride, i) == vstd::wrapping::u32_specs::wrapping_add(
            nth_key(start, stride, (i - 1) as nat),
            stride,
        ));
        assert(nth_key(start, stride, (i - 1) as nat) + stride <= u32::MAX);
    }
}

/// Walking `a + b` steps is walking `a` steps and then `b` more from
/// where that left off.
pub proof fn lemma_nth_key_add(start: u32, stride: u32, a: nat, b: nat)
    ensures
        nth_key(start, stride, a + b) == nth_key(nth_key(start, stride, a), stride, b),
    decreases b,
{
    if b > 0 {
        lemma_nth_key_add(start, stride, a, (b - 1) as nat);
    }
}

/// A worker whose cursor came back to its starting key has truly
/// exhausted its slice: from there the walk only repeats itself, so no
/// step — however far — finds a qualifying key.
pub proof fn lemma_wrap_covers_slice(
    header: Seq<u8>,
    target: Seq<u8>,
    start: u32,
    stride: u32,
    p: nat,
    i: nat,
)
    requires
        p >= 1,
        nth_key(start, stride, p) == start,
        scanned_clean(header, target, start, stride, p),
    ensures
        !key_qualifies(header, target, nth_key(start, stride, i)),
    decreases i,
{
    if i >= p {
        lemma_nth_key_add(start, stride, p, (i - p) as nat);
        lemma_wrap_covers_slice(header, target, start, stride, p, (i - p) as nat);
    }
}

/// The outcome a single worker reports to the coordinator.
#[derive(Debug)]
pub enum WorkerOutcome {
    /// A qualifying key was found; `first` records whether this worker's
    /// attempt to raise the shared signal performed the clear-to-set
    /// transition.
    Found { nonce: u32, score: Vec<u8>, first: bool },
    /// The signal was already raised: another worker won.
    Stopped { steps: u64 },
    /// The worker ran out of budget, or wrapped back to its starting key,
    /// without finding a qualifying key.
    Exhausted { steps: u64 },
    /// The worker's task died without reporting; treated as contributing
    /// no result.
    Failed,
}

/// Scores the candidate for one key: its score when it qualifies, and
/// nothing otherwise.
pub fn check_candidate(header: &Vec<u8>, target: &Vec<u8>, nonce: u32) -> (r: Option<Vec<u8>>)
    ensures
        match r {
            Some(score) => key_qualifies(header@, target@, nonce) && score@ == score_of(
                candidate_of(header@, nonce),
            ),
            None => !key_qualifies(header@, target@, nonce),
        },
{
    let data = candidate_bytes(header, nonce);
    let score = hash2(&data);
    if has_prefix(&score, target) {
        Some(score)
    } else {
        None
    }
}

/// Walks the worker's progression against the shared signal, checking the
/// signal at the top of every iteration.  A found key is always the first
/// qualifying key among the steps this worker examined.
pub fn explore(
    start: u32,
    stride: u32,
    header: &Vec<u8>,
    target: &Vec<u8>,
    signal: &SharedSignal,
    limit: u64,
) -> (r: WorkerOutcome)
    requires
        stride >= 1,
    ensures
        (r matches WorkerOutcome::Found { nonce, score, first } ==> exists|i: nat|
            i < limit && nonce == #[trigger] nth_key(start, stride, i) && scanned_clean(
                header@,
                target@,
                start,
                stride,
                i,
            ) && key_qualifies(header@, target@, nonce) && score@ == score_of(
                candidate_of(header@, nonce),
            )),
        (r matches WorkerOutcome::Stopped { steps } ==> steps <= limit && scanned_clean(
            header@,
            target@,
            start,
            stride,
            steps as nat,
        )),
        (r matches WorkerOutcome::Exhausted { steps } ==> steps <= limit && scanned_clean(
            header@,
            target@,
            start,
            stride,
            steps as nat,
        ) && (steps == limit || (0 < steps && nth_key(start, stride, steps as nat) == start))),
        !(r is Failed),
{
    let mut cursor: u32 = start;
    let mut steps: u64 = 0;
    loop
        invariant
            stride >= 1,
            steps <= limit,
            cursor == nth_key(start, stride, steps as nat),
            scanned_clean(header@, target@, start, stride, steps as nat),
        decreases limit - steps,
    {
        if signal.read() {
            return WorkerOutcome::Stopped { steps };
        }
        if steps == limit {
            return WorkerOutcome::Exhausted { steps };
        }
        match check_candidate(header, target, cursor) {
            Some(score) => {
                let first = signal.try_set();
                return WorkerOutcome::Found { nonce: cursor, score, first };
            },
            None => {},
        }
        steps = steps + 1;
        cursor = cursor.wrapping_add(stride);
        if cursor == start {
            return WorkerOutcome::Exhausted { steps };
        }
    }
}

/// The same walk against an exclusively held latch, for a sequential
/// session: with the latch in hand no other worker can raise it, so one
/// read at entry decides, and every outcome is pinned down exactly.
pub fn explore_with_latch(
    start: u32,
    stride: u32,
    header: &Vec<u8>,
    target: &Vec<u8>,
    latch: &mut Latch,
    limit: u64,
) -> (r: WorkerOutcome)
    requires
        stride >= 1,
    ensures
        (r matches WorkerOutcome::Found { nonce, score, first } ==> !old(latch).is_set()
            && final(latch).is_set() && first && exists|i: nat|
            i < limit && nonce == #[trigger] nth_key(start, stride, i) && scanned_clean(
                header@,
                target@,
                start,
                stride,
                i,
            ) && key_qualifies(header@, target@, nonce) && score@ == score_of(
                candidate_of(header@, nonce),
            )),
        (r matches WorkerOutcome::Stopped { steps } ==> old(latch).is_set() && steps == 0
            && *final(latch) == *old(latch)),
        (r matches WorkerOutcome::Exhausted { steps } ==> !old(latch).is_set() && *final(latch)
            == *old(latch) && steps <= limit && scanned_clean(
            header@,
            target@,
            start,
            stride,
            steps as nat,
        ) && (steps == limit || (0 < steps && nth_key(start, stride, steps as nat) == start))),
        !(r is Failed),
        (r is Stopped <==> old(latch).is_set()),
        (r is Found <==> !old(latch).is_set() && final(latch).is_set()),
        (!old(latch).is_set() && target@.len() == 0 && limit >= 1 ==> (r matches
        WorkerOutcome::Found { nonce, score, first } && nonce == start)),
{
    if latch.read() {
        return WorkerOutcome::Stopped { steps: 0 };
    }
    let mut cursor: u32 = start;
    let mut steps: u64 = 0;
    loop
        invariant
            stride >= 1,
            steps <= limit,
            cursor == nth_key(start, stride, steps as nat),
            scanned_clean(header@, target@, start, stride, steps as nat),
            !old(latch).is_set(),
            *latch == *old(latch),
            (target@.len() == 0 ==> steps == 0),
        decreases limit - steps,
    {
        if steps == limit {
            return WorkerOutcome::Exhausted { steps };
        }
        match check_candidate(header, target, cursor) {
            Some(score) => {
                let first = latch.try_set();
                return WorkerOutcome::Found { nonce: cursor, score, first };
            },
            None => {},
        }
        steps = steps + 1;
        cursor = cursor.wrapping_add(stride);
        if cursor == start {
            return WorkerOutcome::Exhausted { steps };
        }
    }
}

/// With a single worker the walk visits the keys in increasing order, so
/// a first find is the smallest qualifying key of the whole space.
pub proof fn lemma_single_worker_minimal(header: Seq<u8>, target: Seq<u8>, i: nat)
    requires
        i <= u32::MAX,
        scanned_clean(header, target, 0, 1, i),
        key_qualifies(header, target, nth_key(0, 1, i)),
    ensures
        key_qualifies(header, target, i as u32),
        forall|m: u32| m < i ==> !key_qualifies(header, target, m),
    decreases i,
{
    assert forall|j: nat| j <= u32::MAX implies nth_key(0, 1, j) == j by {
        assert(j * 1 == j) by (nonlinear_arith);
        lemma_nth_key_no_wrap(0, 1, j);
    }
    assert forall|m: u32| m < i implies !key_qualifies(header, target, m) by {
        assert(nth_key(0, 1, m as nat) == m);
    }
}

} // verus!
