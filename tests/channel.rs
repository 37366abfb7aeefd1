use ore_cli::channel::{
    decode_accounts, known_channel_list, pick_channel, select, select_decoded, Channel, BUS_COUNT,
};
use ore_cli::Miner;

fn bus_bytes(id: u64, rewards: u64) -> Vec<u8> {
    let mut data = vec![100u8, 0, 0, 0, 0, 0, 0, 0];
    data.extend_from_slice(&id.to_le_bytes());
    data.extend_from_slice(&rewards.to_le_bytes());
    data.extend_from_slice(&0u64.to_le_bytes());
    data.extend_from_slice(&0u64.to_le_bytes());
    data
}

#[test]
fn bus_count_matches_the_protocol() {
    assert_eq!(BUS_COUNT as usize, ore_api::consts::BUS_COUNT);
}

#[test]
fn select_prefers_lowest_id_among_ties() {
    let chs = vec![
        Channel { id: 0, rewards: 5 },
        Channel { id: 1, rewards: 9 },
        Channel { id: 2, rewards: 9 },
    ];
    assert_eq!(select(&chs), 1);
}

#[test]
fn select_ignores_batch_order_for_ties() {
    let chs = vec![
        Channel { id: 6, rewards: 9 },
        Channel { id: 3, rewards: 9 },
        Channel { id: 4, rewards: 2 },
    ];
    assert_eq!(select(&chs), 3);
}

#[test]
fn select_of_no_channel_is_zero() {
    assert_eq!(select(&Vec::new()), 0);
}

#[test]
fn decode_reads_bus_accounts() {
    let accounts = vec![
        Some(bus_bytes(0, 5)),
        None,
        Some(vec![1, 2, 3]),
        Some(bus_bytes(2, 700)),
        Some(bus_bytes(9, 1_000)),
    ];
    let d = decode_accounts(&accounts);
    assert_eq!(
        d,
        vec![
            Some(Channel { id: 0, rewards: 5 }),
            None,
            None,
            Some(Channel { id: 2, rewards: 700 }),
            Some(Channel { id: 9, rewards: 1_000 }),
        ]
    );
    assert_eq!(
        known_channel_list(&d),
        vec![Channel { id: 0, rewards: 5 }, Channel { id: 2, rewards: 700 }]
    );
    assert_eq!(select_decoded(&d), 2);
}

#[test]
fn decode_skips_wrong_discriminator() {
    let mut data = bus_bytes(1, 50);
    data[0] = 101;
    assert_eq!(decode_accounts(&vec![Some(data)]), vec![None]);
}

#[test]
fn pick_channel_takes_best_readable() {
    let batch = Some(vec![Some(bus_bytes(0, 5)), Some(bus_bytes(1, 9)), Some(bus_bytes(2, 9))]);
    assert_eq!(pick_channel(&batch, 7), 1);
}

#[test]
fn pick_channel_falls_back_to_draw() {
    assert_eq!(pick_channel(&None, 3), 3);
    let miner = Miner::new(None, None, None, None, None, None, None, None, false);
    for _ in 0..20 {
        assert!(miner.find_bus(&None) < BUS_COUNT);
    }
}

#[test]
fn select_decoded_prefers_lowest_id_among_ties() {
    let d = vec![
        Some(Channel { id: 0, rewards: 5 }),
        Some(Channel { id: 1, rewards: 9 }),
        Some(Channel { id: 2, rewards: 9 }),
    ];
    assert_eq!(select_decoded(&d), 1);
    assert_eq!(select_decoded(&vec![None, None]), 0);
}

#[test]
fn find_bus_picks_richest_channel() {
    let miner = Miner::new(None, None, None, None, None, None, None, None, false);
    let batch = Some(vec![Some(bus_bytes(0, 5)), Some(bus_bytes(1, 9)), Some(bus_bytes(2, 9))]);
    assert_eq!(miner.find_bus(&batch), 1);
}
