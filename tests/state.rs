use ore_api::state::Proof;
use ore_cli::state::{parse_clock, parse_config, parse_proof};
use solana_program::clock::Clock;
use solana_program::pubkey::Pubkey;

fn proof_bytes(balance: u64, last_hash_at: i64) -> Vec<u8> {
    let proof = Proof {
        authority: Pubkey::new_from_array([3; 32]),
        balance,
        challenge: [9; 32],
        last_hash: [4; 32],
        last_hash_at,
        last_stake_at: 17,
        miner: Pubkey::new_from_array([5; 32]),
        total_hashes: 1,
        total_rewards: 2,
    };
    let mut data = vec![102u8, 0, 0, 0, 0, 0, 0, 0];
    data.extend_from_slice(proof.to_bytes());
    data
}

#[test]
fn proof_account_fields() {
    let record = parse_proof(&proof_bytes(1_500, -42)).unwrap();
    assert_eq!(record.balance, 1_500);
    assert_eq!(record.challenge, [9; 32]);
    assert_eq!(record.last_hash_at, -42);
}

#[test]
fn proof_account_rejects_other_data() {
    let mut data = proof_bytes(1, 1);
    data[0] = 100;
    assert_eq!(parse_proof(&data), None);
    assert_eq!(parse_proof(&vec![102u8; 10]), None);
}

#[test]
fn config_account_fields() {
    let mut data = vec![101u8, 0, 0, 0, 0, 0, 0, 0];
    data.extend_from_slice(&64u64.to_le_bytes());
    data.extend_from_slice(&(-7i64).to_le_bytes());
    data.extend_from_slice(&12u64.to_le_bytes());
    data.extend_from_slice(&900u64.to_le_bytes());
    let c = parse_config(&data).unwrap();
    assert_eq!(c.base_reward_rate, 64);
    assert_eq!(c.last_reset_at, -7);
    assert_eq!(c.min_difficulty, 12);
    assert_eq!(c.top_balance, 900);
    assert_eq!(parse_config(&data[..39].to_vec()), None);
}

#[test]
fn clock_account_time() {
    let clock = Clock {
        slot: 1,
        epoch_start_timestamp: 2,
        epoch: 3,
        leader_schedule_epoch: 4,
        unix_timestamp: 1_700_000_000,
    };
    let data = bincode::serialize(&clock).unwrap();
    assert_eq!(parse_clock(&data), Some(1_700_000_000));
    assert_eq!(parse_clock(&data[..39].to_vec()), None);
}
