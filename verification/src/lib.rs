//! A parallel brute-force nonce search: candidate keys are split among
//! workers as disjoint arithmetic progressions, each candidate is scored by
//! a double SHA-256 digest rendered as lowercase hex, and a shared one-shot
//! signal lets the first winner stop the others.

use vstd::prelude::*;

mod candidate;
mod latch;
mod partition;
mod score;
mod session;
mod signal;
mod worker;

pub use candidate::candidate_bytes;
pub use candidate::candidate_of;
pub use candidate::dec_of;
pub use candidate::decimal_digits;
pub use latch::Latch;
pub use latch::latch_step;
pub use latch::lemma_latch_monotonic;
pub use partition::in_slice;
pub use partition::lemma_bounded_coverage;
pub use partition::lemma_partition_covers;
pub use partition::lemma_partition_disjoint;
pub use partition::lemma_slice_is_progression;
pub use partition::partition;
pub use score::hash2;
pub use score::has_prefix;
pub use score::hex_digit;
pub use score::hex_of;
pub use score::lemma_score_deterministic;
pub use score::score_of;
pub use score::sha256_of;
pub use score::starts_with;
pub use session::ConfigError;
pub use session::SessionResult;
pub use session::determine_worker_count;
pub use session::is_hex_byte;
pub use session::outcome_valid;
pub use session::lemma_session_exhaustive;
pub use session::run_search;
pub use session::select_result;
pub use session::valid_target;
pub use session::validate_config;
pub use session::worker_retired_clean;
pub use signal::SharedSignal;
pub use worker::WorkerOutcome;
pub use worker::check_candidate;
pub use worker::explore;
pub use worker::explore_with_latch;
pub use worker::key_qualifies;
pub use worker::lemma_nth_key_add;
pub use worker::lemma_nth_key_no_wrap;
pub use worker::lemma_single_worker_minimal;
pub use worker::lemma_wrap_covers_slice;
pub use worker::nth_key;
pub use worker::scanned_clean;

verus! {

} // verus!
