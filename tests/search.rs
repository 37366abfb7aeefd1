use drillx::equix::SolverMemory;
use ore_cli::search::{
    best_candidate, hash_difficulty, range_start, search_range, search_slot, should_stop, Candidate,
    SearchParams,
};
use std::sync::atomic::{AtomicU32, Ordering};
use std::time::Instant;

fn candidate(nonce: u64, difficulty: u32) -> Candidate {
    Candidate { nonce, difficulty, digest: [nonce as u8; 16], hash: [difficulty as u8; 32] }
}

#[test]
fn best_candidate_takes_maximum_difficulty() {
    let results = vec![candidate(1, 12), candidate(2, 19), candidate(3, 7)];
    assert_eq!(best_candidate(&results), candidate(2, 19));
}

#[test]
fn best_candidate_ties_go_to_first() {
    let results = vec![candidate(5, 19), candidate(6, 12), candidate(7, 19)];
    assert_eq!(best_candidate(&results).nonce, 5);
    let zeros = vec![candidate(8, 0), candidate(9, 0)];
    assert_eq!(best_candidate(&zeros).nonce, 8);
}

#[test]
fn best_candidate_of_nothing_is_empty() {
    let r = best_candidate(&Vec::new());
    assert_eq!(r, Candidate::empty(0));
    assert_eq!(r.difficulty, 0);
    assert_eq!(r.hash, [0u8; 32]);
}

#[test]
fn stop_rule_before_cutoff_continues() {
    assert!(!should_stop(10, 20, 30, 18, 0));
    assert!(!should_stop(19, 20, 0, 18, 5));
}

#[test]
fn stop_rule_at_cutoff_with_minimum_met() {
    assert!(should_stop(20, 20, 18, 18, 5));
    assert!(should_stop(21, 20, 25, 18, 5));
}

#[test]
fn stop_rule_extends_by_risk_time() {
    assert!(!should_stop(20, 20, 17, 18, 5));
    assert!(!should_stop(24, 20, 17, 18, 5));
    assert!(should_stop(25, 20, 17, 18, 5));
    assert!(should_stop(20, 20, 0, 18, 0));
    assert!(!should_stop(u64::MAX - 1, u64::MAX - 1, 0, 1, 5));
}

#[test]
fn two_workers_scenario() {
    // Each worker found difficulties 12 and 19 before the cutoff.
    let worker_a = best_candidate(&vec![candidate(100, 12), candidate(101, 19)]);
    let worker_b = best_candidate(&vec![candidate(200, 12), candidate(201, 19)]);
    let best = best_candidate(&vec![worker_a, worker_b]);
    assert_eq!(best.difficulty, 19);
    assert_eq!(best.nonce, 101);
    // Minimum 18 is met at the cutoff of 30 s: stop.
    assert!(should_stop(30, 30, best.difficulty as u32, 18, 5));
    // Minimum 20 is not met: keep going for up to 5 more seconds, then stop.
    for elapsed in 30..35 {
        assert!(!should_stop(elapsed, 30, best.difficulty, 20, 5));
    }
    assert!(should_stop(35, 30, best.difficulty, 20, 5));
}

#[test]
fn ranges_partition_the_nonce_space() {
    assert_eq!(range_start(0, 4), 0);
    assert_eq!(range_start(1, 4), u64::MAX / 4);
    assert_eq!(range_start(3, 4), 3 * (u64::MAX / 4));
    assert_eq!(range_start(0, 1), 0);
    assert_eq!(range_start(u64::MAX - 1, u64::MAX), u64::MAX - 1);
}

fn long_search() -> SearchParams {
    SearchParams { cutoff: 3_600, min_difficulty: 0, risk: 0, checkpoint_interval: 1_000 }
}

#[test]
fn worker_keeps_first_best_hash_of_its_range() {
    let challenge = [7u8; 32];
    let mut memory = SolverMemory::new();
    let shared = AtomicU32::new(0);
    let timer = Instant::now();
    let report = search_range(&mut memory, &challenge, 10, 16, &long_search(), &shared, &timer);
    assert_eq!(report.next_nonce, 16);
    assert_eq!(report.stopped, None);
    let mut expected = Candidate::empty(10);
    for nonce in 10u64..16 {
        if let Ok(hx) = drillx::hash(&challenge, &nonce.to_le_bytes()) {
            let d = hx.difficulty();
            if d > expected.difficulty {
                expected = Candidate { nonce, difficulty: d, digest: hx.d, hash: hx.h };
            }
        }
    }
    assert_eq!(report.best, expected);
    assert_eq!(shared.load(Ordering::Relaxed), expected.difficulty);
}

#[test]
fn worker_stops_at_first_checkpoint_past_cutoff() {
    let challenge = [1u8; 32];
    let mut memory = SolverMemory::new();
    let shared = AtomicU32::new(0);
    let timer = Instant::now();
    let params = SearchParams { cutoff: 0, min_difficulty: 0, risk: 0, checkpoint_interval: 4 };
    let report = search_range(&mut memory, &challenge, 8, 100, &params, &shared, &timer);
    assert_eq!(report.next_nonce, 9);
    assert!(report.best.nonce == 8);
    let readings = report.stopped.unwrap();
    assert_eq!(readings.shared_best, shared.load(Ordering::Relaxed));
    assert!(should_stop(readings.elapsed, 0, readings.shared_best, 0, 0));
}

#[test]
fn unused_slot_contributes_nothing() {
    let challenge = [1u8; 32];
    let mut memory = SolverMemory::new();
    let shared = AtomicU32::new(0);
    let timer = Instant::now();
    let report = search_slot(&mut memory, &challenge, 4, 4, &long_search(), &shared, &timer);
    assert_eq!(report.best, Candidate::empty(0));
    assert_eq!(report.next_nonce, 0);
}

#[test]
fn difficulty_counts_leading_zero_bits() {
    let mut h = [0u8; 32];
    assert_eq!(hash_difficulty(&h), 256);
    h[0] = 0x80;
    assert_eq!(hash_difficulty(&h), 0);
    h[0] = 0;
    h[1] = 0x01;
    assert_eq!(hash_difficulty(&h), 15);
    h[1] = 0;
    h[2] = 0x3f;
    h[3] = 0xff;
    assert_eq!(hash_difficulty(&h), 18);
    for seed in 0u8..40 {
        let mut x = [0u8; 32];
        for (k, b) in x.iter_mut().enumerate() {
            *b = if (k as u8) < seed / 8 { 0 } else { seed.wrapping_mul(37).wrapping_add(k as u8) };
        }
        assert_eq!(hash_difficulty(&x), drillx::difficulty(x));
    }
}
