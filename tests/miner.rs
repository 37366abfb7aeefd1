use ore_cli::miner::{
    blockhash_retry, confirm_answer, exceeds_available, plan_submission, proof_advanced,
    reward_table, saturating_pow2, CycleStart, MiningState, Notice, Step, BLOCKHASH_QUERY_RETRIES,
};
use ore_cli::report::{format_duration, notification_text};
use ore_cli::{MineArgs, ParallelStrategy, SrcType};

fn mine_args(cores: Option<u64>, threads: Option<u64>) -> MineArgs {
    MineArgs {
        cores,
        threads,
        buffer_time: 5,
        nonce_checkpoint_step: 100,
        expected_min_difficulty: 18,
        risk_time: 0,
        extra_fee_difficulty: 27,
        extra_fee_percent: 0,
        slack_difficulty: 20,
    }
}

#[test]
fn parallel_strategy_prefers_cores() {
    assert_eq!(mine_args(Some(4), Some(8)).parallel_strategy(), ParallelStrategy::Cores(4));
    assert_eq!(mine_args(None, Some(8)).parallel_strategy(), ParallelStrategy::Threads(8));
    assert_eq!(mine_args(None, None).parallel_strategy(), ParallelStrategy::Cores(1));
}

#[test]
fn difficulty_payload_carries_policy() {
    let p = mine_args(None, None).difficulty_payload(23);
    assert_eq!(p.solution_difficulty, 23);
    assert_eq!(p.expected_min_difficulty, 18);
    assert_eq!(p.slack_difficulty, 20);
}

#[test]
fn mining_cycle_reports_previous_solution() {
    let mut state = MiningState::new();
    let first = state.begin_cycle(1_000, 50, 20, true);
    assert_eq!(first, CycleStart { notice: None, change: None });
    assert!(state.end_cycle(true, 21));
    let second = state.begin_cycle(1_600, 110, 20, true);
    assert_eq!(
        second,
        CycleStart { notice: Some(Notice { difficulty: 21, reward: 600, balance: 1_600 }), change: Some(600) }
    );
    assert_eq!(state.last_hash_at, 110);
    assert_eq!(state.last_balance, 1_600);
}

#[test]
fn mining_cycle_below_threshold_or_without_sink() {
    let mut state = MiningState { last_hash_at: 10, last_balance: 900, last_difficulty: 15 };
    let s = state.begin_cycle(800, 70, 20, true);
    assert_eq!(s.notice, None);
    assert_eq!(s.change, Some(0));
    state.last_difficulty = 25;
    assert_eq!(state.begin_cycle(1_000, 130, 20, false).notice, None);
}

#[test]
fn failed_submission_ends_the_loop() {
    let mut state = MiningState { last_hash_at: 10, last_balance: 900, last_difficulty: 15 };
    assert!(!state.end_cycle(false, 30));
    assert_eq!(state.last_difficulty, 15);
}

#[test]
fn submission_plan_orders_instructions() {
    let plain = plan_submission(false);
    assert_eq!(plain.steps, vec![Step::Auth, Step::Mine]);
    assert_eq!(plain.compute_budget, 500_000);
    let with_reset = plan_submission(true);
    assert_eq!(with_reset.steps, vec![Step::Auth, Step::Reset, Step::Mine]);
    assert_eq!(with_reset.compute_budget, 600_000);
}

#[test]
fn proof_wait_needs_newer_timestamp() {
    assert!(!proof_advanced(100, 100));
    assert!(proof_advanced(101, 100));
    assert!(!proof_advanced(99, 100));
}

#[test]
fn warnings_for_too_many_workers() {
    assert!(exceeds_available(9, 8));
    assert!(!exceeds_available(8, 8));
}

#[test]
fn blockhash_retries_give_up_after_five() {
    let mut attempts: usize = 0;
    let mut gave_up = false;
    let mut failures = 0;
    while !gave_up {
        let (next, stop) = blockhash_retry(attempts);
        attempts = next;
        gave_up = stop;
        failures += 1;
    }
    assert_eq!(failures, BLOCKHASH_QUERY_RETRIES);
}

#[test]
fn confirm_answers() {
    assert_eq!(confirm_answer('y'), Some(true));
    assert_eq!(confirm_answer('Y'), Some(true));
    assert_eq!(confirm_answer('n'), Some(false));
    assert_eq!(confirm_answer('N'), Some(false));
    assert_eq!(confirm_answer('x'), None);
}

#[test]
fn reward_table_doubles_per_level() {
    let t = reward_table(32, 1);
    assert_eq!(t.len(), 32);
    assert_eq!(t[0], (1, 32));
    assert_eq!(t[1], (2, 128));
    assert_eq!(t[2], (3, 256));
    assert_eq!(t[31], (32, 32u64 << 32));
}

#[test]
fn reward_table_saturates() {
    let t = reward_table(1 << 20, 30);
    assert_eq!(t[0], (30, 1 << 20));
    assert_eq!(t[1], (31, 1 << 51));
    assert_eq!(t[13], (43, 1 << 63));
    assert_eq!(t[14], (44, u64::MAX));
    assert_eq!(t[31], (61, u64::MAX));
    assert_eq!(saturating_pow2(63), 1u64 << 63);
    assert_eq!(saturating_pow2(64), u64::MAX);
    assert_eq!(saturating_pow2(1_000), u64::MAX);
    assert_eq!(saturating_pow2(0), 1);
}

#[test]
fn source_names() {
    assert_eq!(SrcType::parse("pool"), Some(SrcType::Pool));
    assert_eq!(SrcType::parse("solo"), Some(SrcType::Solo));
    assert_eq!(SrcType::parse("team"), None);
    assert_eq!(SrcType::Solo.as_str(), "solo");
}

#[test]
fn durations_as_minutes_and_seconds() {
    assert_eq!(format_duration(75), "01:15");
    assert_eq!(format_duration(0), "00:00");
    assert_eq!(format_duration(59), "00:59");
    assert_eq!(format_duration(6_000), "100:00");
}

#[test]
fn notification_message_text() {
    assert_eq!(
        notification_text(SrcType::Solo, 21, 150_000_000_000, 1_234_500_000_000),
        "S: solo\nD: 21\nR: 1.5\nB: 12.345"
    );
}
