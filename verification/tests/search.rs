use miner::ConfigError;
use miner::Latch;
use miner::SessionResult;
use miner::SharedSignal;
use miner::WorkerOutcome;
use miner::candidate_bytes;
use miner::check_candidate;
use miner::decimal_digits;
use miner::determine_worker_count;
use miner::explore;
use miner::explore_with_latch;
use miner::has_prefix;
use miner::hash2;
use miner::partition;
use miner::run_search;
use miner::select_result;
use miner::validate_config;

use sha2::{Digest, Sha256};

fn header() -> Vec<u8> {
    b"Version: 1, PreviousHash: 0000abc..., MerkleRoot: xyz..., Timestamp: 123456789, Bits: 486604799, Nonce: ".to_vec()
}

#[test]
fn scoring_is_deterministic() {
    let a = b"a".to_vec();
    assert_eq!(hash2(&a), hash2(&a));
    let b = b"b".to_vec();
    assert_ne!(hash2(&a), hash2(&b));
}

#[test]
fn score_is_64_lowercase_hex_digits() {
    let s = hash2(&b"anything at all".to_vec());
    assert_eq!(s.len(), 64);
    for c in s {
        assert!(c.is_ascii_digit() || (b'a'..=b'f').contains(&c));
    }
}

#[test]
fn score_of_empty_input() {
    let s = hash2(&Vec::new());
    assert_eq!(
        s,
        b"5df6e0e2761359d30a8275058e299fcc0381534545f55cf43e41983f5d4c9456".to_vec()
    );
}

#[test]
fn score_agrees_with_direct_double_digest() {
    let data = b"cross-check".to_vec();
    let first = Sha256::digest(data.as_slice());
    let second = Sha256::digest(first.as_slice());
    let expected = hex::encode(second.as_slice()).into_bytes();
    assert_eq!(hash2(&data), expected);
}

#[test]
fn decimal_rendering_exact() {
    assert_eq!(decimal_digits(0), b"0".to_vec());
    assert_eq!(decimal_digits(7), b"7".to_vec());
    assert_eq!(decimal_digits(12345), b"12345".to_vec());
    assert_eq!(decimal_digits(u32::MAX), b"4294967295".to_vec());
}

#[test]
fn candidate_is_header_then_digits() {
    assert_eq!(candidate_bytes(&b"abc".to_vec(), 42), b"abc42".to_vec());
    assert_eq!(candidate_bytes(&Vec::new(), 0), b"0".to_vec());
}

#[test]
fn prefix_test_cases() {
    let s = b"00ab".to_vec();
    assert!(has_prefix(&s, &Vec::new()));
    assert!(has_prefix(&s, &b"00".to_vec()));
    assert!(has_prefix(&s, &b"00ab".to_vec()));
    assert!(!has_prefix(&s, &b"0b".to_vec()));
    // a target longer than the score never matches
    assert!(!has_prefix(&s, &b"00ab0".to_vec()));
}

#[test]
fn partition_scheme_exact() {
    for n in [1u32, 2, 3, 8, 64] {
        let slices = partition(n);
        assert_eq!(slices.len(), n as usize);
        for (k, pair) in slices.iter().enumerate() {
            assert_eq!(*pair, (k as u32, n));
        }
        // the slices cover every key exactly once
        for x in 0u32..1000 {
            let owners = (0..n).filter(|k| x % n == *k).count();
            assert_eq!(owners, 1);
        }
    }
}

#[test]
fn latch_is_one_shot() {
    let mut l = Latch::new();
    assert!(!l.read());
    assert!(l.try_set());
    assert!(l.read());
    assert!(!l.try_set());
    assert!(l.read());
}

#[test]
fn shared_signal_is_one_shot() {
    let s = SharedSignal::new();
    assert!(!s.read());
    assert!(s.try_set());
    assert!(s.read());
    assert!(!s.try_set());
    assert!(s.read());
}

#[test]
fn empty_target_wins_on_first_candidate() {
    let mut l = Latch::new();
    match explore_with_latch(0, 1, &header(), &Vec::new(), &mut l, 10) {
        WorkerOutcome::Found { nonce, score, first } => {
            assert_eq!(nonce, 0);
            assert!(first);
            assert_eq!(score, hash2(&candidate_bytes(&header(), 0)));
        }
        other => panic!("expected a win, got {:?}", other),
    }
    assert!(l.read());
}

#[test]
fn empty_target_wins_with_shared_signal() {
    let s = SharedSignal::new();
    match explore(0, 1, &header(), &Vec::new(), &s, 10) {
        WorkerOutcome::Found { nonce, first, .. } => {
            assert_eq!(nonce, 0);
            assert!(first);
        }
        other => panic!("expected a win, got {:?}", other),
    }
}

#[test]
fn raised_signal_stops_a_worker_at_once() {
    let s = SharedSignal::new();
    assert!(s.try_set());
    match explore(0, 1, &header(), &Vec::new(), &s, 10) {
        WorkerOutcome::Stopped { steps } => assert_eq!(steps, 0),
        other => panic!("expected a stop, got {:?}", other),
    }
}

#[test]
fn raised_latch_stops_a_worker_at_once() {
    let mut l = Latch::new();
    l.try_set();
    match explore_with_latch(0, 1, &header(), &Vec::new(), &mut l, 10) {
        WorkerOutcome::Stopped { steps } => assert_eq!(steps, 0),
        other => panic!("expected a stop, got {:?}", other),
    }
}

#[test]
fn wraparound_exhausts_the_slice() {
    let mut l = Latch::new();
    // stride half the key space: the cursor returns to its start in two steps
    match explore_with_latch(0, 2147483648, &header(), &b"zzzz".to_vec(), &mut l, u64::MAX) {
        WorkerOutcome::Exhausted { steps } => assert_eq!(steps, 2),
        other => panic!("expected exhaustion, got {:?}", other),
    }
}

#[test]
fn budget_exhausts_the_scan() {
    let mut l = Latch::new();
    // no lowercase score byte can be 'z', so nothing ever qualifies
    match explore_with_latch(0, 1, &header(), &b"zz".to_vec(), &mut l, 5) {
        WorkerOutcome::Exhausted { steps } => assert_eq!(steps, 5),
        other => panic!("expected exhaustion, got {:?}", other),
    }
}

#[test]
fn zero_workers_is_a_config_error() {
    assert_eq!(
        validate_config(0, &b"00".to_vec()),
        Err(ConfigError::NoWorkers)
    );
    match run_search(&header(), &b"00".to_vec(), 0, 10) {
        Err(ConfigError::NoWorkers) => {}
        other => panic!("expected rejection, got {:?}", other),
    }
}

#[test]
fn non_hex_target_is_a_config_error() {
    assert_eq!(
        validate_config(4, &b"00g1".to_vec()),
        Err(ConfigError::TargetNotHex)
    );
    // uppercase can never match a lowercase score, so it is rejected too
    assert_eq!(
        validate_config(4, &b"AB".to_vec()),
        Err(ConfigError::TargetNotHex)
    );
    assert_eq!(validate_config(4, &b"09af".to_vec()), Ok(()));
    match run_search(&header(), &b"0G".to_vec(), 4, 10) {
        Err(ConfigError::TargetNotHex) => {}
        other => panic!("expected rejection, got {:?}", other),
    }
}

#[test]
fn determine_worker_count_clamps_to_one() {
    assert_eq!(determine_worker_count(None), 1);
    assert_eq!(determine_worker_count(Some(0)), 1);
    assert_eq!(determine_worker_count(Some(1)), 1);
    assert_eq!(determine_worker_count(Some(12)), 12);
}

#[test]
fn selection_prefers_the_first_setter() {
    let outcomes = vec![
        WorkerOutcome::Exhausted { steps: 3 },
        WorkerOutcome::Found { nonce: 9, score: b"09".to_vec(), first: false },
        WorkerOutcome::Found { nonce: 5, score: b"05".to_vec(), first: true },
        WorkerOutcome::Found { nonce: 2, score: b"02".to_vec(), first: false },
    ];
    match select_result(outcomes) {
        SessionResult::Found { nonce, score } => {
            assert_eq!(nonce, 5);
            assert_eq!(score, b"05".to_vec());
        }
        other => panic!("expected a win, got {:?}", other),
    }
}

#[test]
fn selection_falls_back_to_the_first_win() {
    let outcomes = vec![
        WorkerOutcome::Stopped { steps: 0 },
        WorkerOutcome::Found { nonce: 9, score: b"09".to_vec(), first: false },
        WorkerOutcome::Found { nonce: 2, score: b"02".to_vec(), first: false },
    ];
    match select_result(outcomes) {
        SessionResult::Found { nonce, .. } => assert_eq!(nonce, 9),
        other => panic!("expected a win, got {:?}", other),
    }
}

#[test]
fn selection_without_wins_is_no_solution() {
    let outcomes = vec![
        WorkerOutcome::Exhausted { steps: 10 },
        WorkerOutcome::Failed,
        WorkerOutcome::Exhausted { steps: 10 },
    ];
    match select_result(outcomes) {
        SessionResult::NoSolution => {}
        other => panic!("expected no solution, got {:?}", other),
    }
}

#[test]
fn empty_target_session_reports_key_zero() {
    match run_search(&header(), &Vec::new(), 4, 10) {
        Ok(SessionResult::Found { nonce, score }) => {
            assert_eq!(nonce, 0);
            assert_eq!(score, hash2(&candidate_bytes(&header(), 0)));
        }
        other => panic!("expected a win at key zero, got {:?}", other),
    }
}

#[test]
fn absent_target_reports_exhaustion_over_bounded_range() {
    let h = header();
    let target = b"ffffff".to_vec();
    // brute force: the target occurs nowhere among the 100 bounded candidates
    for x in 0u32..100 {
        let score = hash2(&candidate_bytes(&h, x));
        assert!(!has_prefix(&score, &target));
    }
    // four workers, 25 steps each: exactly the keys 0..99
    match run_search(&h, &target, 4, 25) {
        Ok(SessionResult::NoSolution) => {}
        other => panic!("expected no solution, got {:?}", other),
    }
}

#[test]
fn found_pair_qualifies_when_rescored() {
    let h = header();
    let target = b"0".to_vec();
    match run_search(&h, &target, 4, 2000) {
        Ok(SessionResult::Found { nonce, score }) => {
            let rescored = hash2(&candidate_bytes(&h, nonce));
            assert_eq!(score, rescored);
            assert!(has_prefix(&rescored, &target));
            assert_eq!(check_candidate(&h, &target, nonce), Some(rescored));
        }
        other => panic!("expected a win, got {:?}", other),
    }
}

#[test]
fn single_worker_finds_the_smallest_winning_key() {
    let h = header();
    let target = b"0".to_vec();
    let single = match run_search(&h, &target, 1, 8000) {
        Ok(SessionResult::Found { nonce, .. }) => nonce,
        other => panic!("expected a win, got {:?}", other),
    };
    // each of four workers scans its own slice to its own first win
    let mut wins: Vec<u32> = Vec::new();
    for k in 0u32..4 {
        let mut l = Latch::new();
        if let WorkerOutcome::Found { nonce, .. } =
            explore_with_latch(k, 4, &h, &target, &mut l, 2000)
        {
            wins.push(nonce);
        }
    }
    assert!(!wins.is_empty());
    assert_eq!(single, *wins.iter().min().unwrap());
}
