//! The coordinator: validates the configuration, runs one worker per
//! partition slice, collects every worker's outcome, and picks exactly
//! one session result.

use vstd::prelude::*;
use crate::candidate::candidate_of;
use crate::latch::Latch;
use crate::partition::lemma_bounded_coverage;
use crate::score::score_of;
use crate::worker::WorkerOutcome;
use crate::worker::explore_with_latch;
use crate::worker::key_qualifies;
use crate::worker::lemma_wrap_covers_slice;
use crate::worker::nth_key;
use crate::worker::scanned_clean;

verus! {

/// A rejected configuration: no workers, or a target that is not
/// lowercase hex text.
#[derive(Clone, Copy, Debug, PartialEq, Eq, Structural)]
pub enum ConfigError {
    NoWorkers,
    TargetNotHex,
}

/// The one result of a whole session.
#[derive(Debug)]
pub enum SessionResult {
    /// The accepted winning pair.
    Found { nonce: u32, score: Vec<u8> },
    /// Every worker retired without a win.
    NoSolution,
}

/// An ASCII byte that can occur in a score: a digit or a lowercase
/// hex letter.
pub open spec fn is_hex_byte(b: u8) -> bool {
    (48 <= b <= 57) || (97 <= b <= 102)
}

/// A target prefix is valid when all its bytes are lowercase hex digits;
/// scores render in lowercase, so anything else could never match.
pub open spec fn valid_target(t: Seq<u8>) -> bool {
    forall|i: int| 0 <= i < t.len() ==> is_hex_byte(#[trigger] t[i])
}

/// Accepts or rejects a configuration: there must be at least one worker,
/// and the target must be lowercase hex text.
pub fn validate_config(count: u32, target: &Vec<u8>) -> (r: Result<(), ConfigError>)
    ensures
        r is Ok <==> (count >= 1 && valid_target(target@)),
        r == Result::<(), ConfigError>::Err(ConfigError::NoWorkers) <==> count == 0,
        r == Result::<(), ConfigError>::Err(ConfigError::TargetNotHex) <==> (count >= 1
            && !valid_target(target@)),
{
    if count == 0 {
        return Err(ConfigError::NoWorkers);
    }
    let mut i: usize = 0;
    while i < target.len()
        invariant
            count >= 1,
            i <= target.len(),
            forall|j: int| 0 <= j < i ==> is_hex_byte(#[trigger] target@[j]),
        decreases target.len() - i,
    {
        let b = target[i];
        if !((48 <= b && b <= 57) || (97 <= b && b <= 102)) {
            proof {
                assert(!is_hex_byte(target@[i as int]));
                assert(!valid_target(target@));
            }
            return Err(ConfigError::TargetNotHex);
        }
        i += 1;
    }
    Ok(())
}

/// The worker-count policy: a detected hardware count is used as it is,
/// but a failed or degenerate detection falls back to one worker, never
/// to none.
pub fn determine_worker_count(detected: Option<u32>) -> (r: u32)
    ensures
        r >= 1,
        (match detected {
            Some(c) => r == if c >= 1 {
                c
            } else {
                1
            },
            None => r == 1,
        }),
{
    match detected {
        Some(c) => if c >= 1 {
            c
        } else {
            1
        },
        None => 1,
    }
}

/// What the coordinator may assume of the outcome worker `start` of
/// `stride` reported after a scan with the given budget.
pub open spec fn outcome_valid(
    o: WorkerOutcome,
    header: Seq<u8>,
    target: Seq<u8>,
    start: u32,
    stride: u32,
    limit: u64,
) -> bool {
    match o {
        WorkerOutcome::Found { nonce, score, first } => key_qualifies(header, target, nonce)
            && score@ == score_of(candidate_of(header, nonce)),
        WorkerOutcome::Stopped { steps } => true,
        WorkerOutcome::Exhausted { steps } => steps <= limit && scanned_clean(
            header,
            target,
            start,
            stride,
            steps as nat,
        ) && (steps == limit || (0 < steps && nth_key(start, stride, steps as nat) == start)),
        WorkerOutcome::Failed => true,
    }
}

/// Worker `start` retired with nothing: it scanned some number of steps —
/// its whole budget, or all the way around its slice — and none qualified.
pub open spec fn worker_retired_clean(
    header: Seq<u8>,
    target: Seq<u8>,
    start: u32,
    stride: u32,
    limit: u64,
) -> bool {
    exists|m: nat|
        (m == limit || (0 < m && m <= limit && nth_key(start, stride, m) == start))
            && #[trigger] scanned_clean(header, target, start, stride, m)
}

/// A session that reported no solution really explored its whole range:
/// when every worker retired clean, no key below `count * limit`
/// qualifies at all.
pub proof fn lemma_session_exhaustive(
    header: Seq<u8>,
    target: Seq<u8>,
    count: u32,
    limit: u64,
    x: u32,
)
    requires
        count >= 1,
        x < count * limit,
        forall|w: u32| w < count ==> worker_retired_clean(header, target, w, count, limit),
    ensures
        !key_qualifies(header, target, x),
{
    assert forall|w: u32| w < count implies scanned_clean(
        header,
        target,
        w,
        count,
        limit as nat,
    ) by {
        assert(worker_retired_clean(header, target, w, count, limit));
        let m = choose|m: nat|
            (m == limit || (0 < m && m <= limit && nth_key(w, count, m) == w))
                && #[trigger] scanned_clean(header, target, w, count, m);
        if m != limit {
            assert forall|j: nat| j < limit implies !key_qualifies(
                header,
                target,
                #[trigger] nth_key(w, count, j),
            ) by {
                lemma_wrap_covers_slice(header, target, w, count, m, j);
            }
        }
    }
    lemma_bounded_coverage(header, target, count, limit, x);
}

/// Picks exactly one session result from the workers' outcomes: the first
/// win whose signal-set attempt performed the clear-to-set transition,
/// falling back to the first win of any kind; no win means no solution.
pub fn select_result(outcomes: Vec<WorkerOutcome>) -> (r: SessionResult)
    ensures
        (r is Found <==> exists|j: int| 0 <= j < outcomes@.len() && outcomes@[j] is Found),
        (r matches SessionResult::Found { nonce, score } ==> exists|j: int|
            0 <= j < outcomes@.len() && (#[trigger] outcomes@[j] matches WorkerOutcome::Found {
                nonce: n2,
                score: s2,
                first: f2,
            } && n2 == nonce && s2 == score)),
        ((exists|j: int|
            0 <= j < outcomes@.len() && (#[trigger] outcomes@[j] matches WorkerOutcome::Found {
                nonce: n2,
                score: s2,
                first: f2,
            } && f2)) ==> (r matches SessionResult::Found { nonce, score } && exists|j: int|
            0 <= j < outcomes@.len() && (#[trigger] outcomes@[j] matches WorkerOutcome::Found {
                nonce: n2,
                score: s2,
                first: f2,
            } && n2 == nonce && s2 == score && f2))),
{
    let ghost orig = outcomes@;
    let mut rest = outcomes;
    let mut win: Option<(u32, Vec<u8>)> = None;
    let mut win_first: bool = false;
    let ghost mut k: int = 0;
    while rest.len() > 0
        invariant
            0 <= k,
            k + rest@.len() == orig.len(),
            rest@ == orig.subrange(k, orig.len() as int),
            (win is None ==> forall|j: int| 0 <= j < k ==> !(orig[j] is Found)),
            (win matches Some((n, s)) ==> exists|j: int|
                0 <= j < k && (#[trigger] orig[j] matches WorkerOutcome::Found {
                    nonce: n2,
                    score: s2,
                    first: f2,
                } && n2 == n && s2 == s && f2 == win_first)),
            (!win_first ==> forall|j: int|
                0 <= j < k ==> !(#[trigger] orig[j] matches WorkerOutcome::Found {
                    nonce: n2,
                    score: s2,
                    first: f2,
                } && f2)),
        decreases rest@.len(),
    {
        let o = rest.remove(0);
        proof {
            assert(o == orig[k]);
            assert(rest@ =~= orig.subrange(k + 1, orig.len() as int));
        }
        match o {
            WorkerOutcome::Found { nonce, score, first } => {
                if win.is_none() || (first && !win_first) {
                    win = Some((nonce, score));
                    win_first = first;
                }
            },
            _ => {},
        }
        proof {
            k = k + 1;
        }
    }
    match win {
        Some((nonce, score)) => SessionResult::Found { nonce, score },
        None => SessionResult::NoSolution,
    }
}

/// Runs a whole session with one latch and one worker per slice, in slice
/// order, and reports exactly one result: a winning pair that re-scores
/// to a qualifying score, or — when the configuration was accepted and no
/// worker won — the guarantee that every worker retired clean.
pub fn run_search(header: &Vec<u8>, target: &Vec<u8>, count: u32, limit: u64) -> (r: Result<
    SessionResult,
    ConfigError,
>)
    ensures
        (r is Err <==> (count == 0 || !valid_target(target@))),
        (r == Result::<SessionResult, ConfigError>::Err(ConfigError::NoWorkers) <==> count == 0),
        (r == Result::<SessionResult, ConfigError>::Err(ConfigError::TargetNotHex) <==> (count
            >= 1 && !valid_target(target@))),
        (r matches Ok(SessionResult::Found { nonce, score }) ==> key_qualifies(
            header@,
            target@,
            nonce,
        ) && score@ == score_of(candidate_of(header@, nonce))),
        (r matches Ok(s) && s is NoSolution ==> forall|w: u32|
            w < count ==> worker_retired_clean(header@, target@, w, count, limit)),
        (count >= 1 && target@.len() == 0 && limit >= 1 ==> (r matches Ok(
            SessionResult::Found { nonce, score },
        ) && nonce == 0)),
{
    match validate_config(count, target) {
        Err(e) => {
            return Err(e);
        },
        Ok(()) => {},
    }
    let mut latch = Latch::new();
    let mut outcomes: Vec<WorkerOutcome> = Vec::new();
    let mut k: u32 = 0;
    while k < count
        invariant
            count >= 1,
            k <= count,
            outcomes@.len() == k,
            forall|j: int|
                0 <= j < k ==> outcome_valid(
                    #[trigger] outcomes@[j],
                    header@,
                    target@,
                    j as u32,
                    count,
                    limit,
                ),
            (!latch.is_set() ==> forall|j: int| 0 <= j < k ==> outcomes@[j] is Exhausted),
            (latch.is_set() ==> exists|j: int| 0 <= j < k && outcomes@[j] is Found),
            (k == 0 ==> !latch.is_set()),
            (target@.len() == 0 && limit >= 1 && k >= 1 ==> latch.is_set() && (outcomes@[0]
                matches WorkerOutcome::Found { nonce, score, first } && nonce == 0 && first)
                && (forall|j: int| 1 <= j < k ==> outcomes@[j] is Stopped)),
        decreases count - k,
    {
        let ghost was_set = latch.is_set();
        let ghost prev = outcomes@;
        let o = explore_with_latch(k, count, header, target, &mut latch, limit);
        proof {
            if was_set {
                assert(o is Stopped);
            } else if latch.is_set() {
                assert(o is Found);
            } else {
                assert(!(o is Found) && !(o is Stopped) && !(o is Failed));
                assert(o is Exhausted);
            }
        }
        outcomes.push(o);
        proof {
            assert(outcomes@[k as int] == o);
            assert(forall|j: int| 0 <= j < k ==> outcomes@[j] == prev[j]);
            if latch.is_set() {
                if was_set {
                    let j = choose|j: int| 0 <= j < k && prev[j] is Found;
                    assert(outcomes@[j] is Found);
                } else {
                    assert(outcomes@[k as int] is Found);
                }
            }
        }
        k += 1;
    }
    let ghost all = outcomes@;
    let sel = select_result(outcomes);
    proof {
        if target@.len() == 0 && limit >= 1 {
            assert(all[0] matches WorkerOutcome::Found { nonce, score, first } && nonce == 0
                && first);
            assert(sel is Found);
            let nonce = sel->Found_nonce;
            let score = sel->Found_score;
            let j = choose|j: int|
                0 <= j < all.len() && (#[trigger] all[j] matches WorkerOutcome::Found {
                    nonce: n2,
                    score: s2,
                    first: f2,
                } && n2 == nonce && s2 == score);
            assert(j == 0);
            assert(nonce == 0);
        }
        if sel is NoSolution {
            assert(!latch.is_set());
            assert forall|w: u32| w < count implies worker_retired_clean(
                header@,
                target@,
                w,
                count,
                limit,
            ) by {
                assert(all[w as int] is Exhausted);
                assert(outcome_valid(all[w as int], header@, target@, w, count, limit));
                let m = all[w as int]->Exhausted_steps;
                assert((m as nat == limit || (0 < m as nat && m as nat <= limit && nth_key(
                    w,
                    count,
                    m as nat,
                ) == w)) && scanned_clean(header@, target@, w, count, m as nat));
            }
        }
    }
    Ok(sel)
}

} // verus!
