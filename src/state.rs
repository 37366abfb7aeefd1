use crate::channel::le_value;
use ore_api::state::{Config, Proof};
use ore_utils::AccountDeserialize;
use solana_program::clock::Clock;
use vstd::prelude::*;

verus! {

/// Value of a little-endian two's-complement byte string of eight bytes.
pub open spec fn le_signed(b: Seq<u8>) -> int {
    if le_value(b) >= 0x8000_0000_0000_0000 {
        le_value(b) - 0x1_0000_0000_0000_0000
    } else {
        le_value(b)
    }
}

/// What a cycle reads of the miner's proof account.
#[derive(Clone, Copy, Debug, PartialEq, Eq)]
pub struct ProofRecord {
    /// Staked and earned tokens, in units.
    pub balance: u64,
    /// The challenge of the current epoch.
    pub challenge: [u8; 32],
    /// When the last hash was accepted.
    pub last_hash_at: i64,
}

/// What a cycle reads of the protocol's configuration.
#[derive(Clone, Copy, Debug, PartialEq, Eq, Structural)]
pub struct ProtocolConfig {
    pub base_reward_rate: u64,
    pub last_reset_at: i64,
    pub min_difficulty: u64,
    pub top_balance: u64,
}

/// `data` is a proof account holding `p`: discriminator 102, then after the
/// 8-byte header the authority, the balance at byte 40, the challenge at 48
/// and the last hash time at 112, of 176 bytes in all.
pub open spec fn proof_layout(data: Seq<u8>, p: ProofRecord) -> bool {
    &&& data.len() == 176
    &&& data[0] == 102
    &&& p.balance as int == le_value(data.subrange(40, 48))
    &&& p.challenge@ == data.subrange(48, 80)
    &&& p.last_hash_at as int == le_signed(data.subrange(112, 120))
}

/// `data` is the config account holding `c`: discriminator 101, then after the
/// 8-byte header four 8-byte fields, of 40 bytes in all.
pub open spec fn config_layout(data: Seq<u8>, c: ProtocolConfig) -> bool {
    &&& data.len() == 40
    &&& data[0] == 101
    &&& c.base_reward_rate as int == le_value(data.subrange(8, 16))
    &&& c.last_reset_at as int == le_signed(data.subrange(16, 24))
    &&& c.min_difficulty as int == le_value(data.subrange(24, 32))
    &&& c.top_balance as int == le_value(data.subrange(32, 40))
}

/// Relies on ore-utils' AccountDeserialize::try_from_bytes for ore-api's Proof
/// (a bytemuck cast after the 8-byte header, in the little-endian order of
/// the hosts a miner runs on). It indexes byte 0 and slices from byte 8; it
/// may refuse data that is not suitably aligned.
#[verifier::external_body]
pub(crate) fn decode_proof(data: &Vec<u8>) -> (r: Option<ProofRecord>)
    requires
        data@.len() >= 8,
    ensures
        r matches Some(p) ==> proof_layout(data@, p),
{
    match Proof::try_from_bytes(data) {
        Ok(p) => Some(
            ProofRecord { balance: p.balance, challenge: p.challenge, last_hash_at: p.last_hash_at },
        ),
        Err(_) => None,
    }
}

/// Relies on ore-utils' AccountDeserialize::try_from_bytes for ore-api's Config,
/// as for the proof account.
#[verifier::external_body]
pub(crate) fn decode_config(data: &Vec<u8>) -> (r: Option<ProtocolConfig>)
    requires
        data@.len() >= 8,
    ensures
        r matches Some(c) ==> config_layout(data@, c),
{
    match Config::try_from_bytes(data) {
        Ok(c) => Some(
            ProtocolConfig {
                base_reward_rate: c.base_reward_rate,
                last_reset_at: c.last_reset_at,
                min_difficulty: c.min_difficulty,
                top_balance: c.top_balance,
            },
        ),
        Err(_) => None,
    }
}

/// Relies on bincode::deserialize of solana's Clock: five 8-byte little-endian
/// fields, trailing bytes allowed; the time is the fifth.
#[verifier::external_body]
fn decode_clock(data: &Vec<u8>) -> (r: Option<i64>)
    ensures
        r is Some <==> data@.len() >= 40,
        r matches Some(t) ==> t as int == le_signed(data@.subrange(32, 40)),
{
    match bincode::deserialize::<Clock>(data) {
        Ok(clock) => Some(clock.unix_timestamp),
        Err(_) => None,
    }
}

/// The proof record held by an account's data, if it is one.
pub fn parse_proof(data: &Vec<u8>) -> (r: Option<ProofRecord>)
    ensures
        r matches Some(p) ==> proof_layout(data@, p),
        data@.len() != 176 ==> r is None,
{
    if data.len() != 176 {
        return None;
    }
    decode_proof(data)
}

/// The protocol configuration held by an account's data, if it is one.
pub fn parse_config(data: &Vec<u8>) -> (r: Option<ProtocolConfig>)
    ensures
        r matches Some(c) ==> config_layout(data@, c),
        data@.len() != 40 ==> r is None,
{
    if data.len() != 40 {
        return None;
    }
    decode_config(data)
}

/// The ledger time held by the clock account's data: none when it is shorter
/// than the clock's five fields.
pub fn parse_clock(data: &Vec<u8>) -> (r: Option<i64>)
    ensures
        r is Some <==> data@.len() >= 40,
        r matches Some(t) ==> t as int == le_signed(data@.subrange(32, 40)),
{
    decode_clock(data)
}

} // verus!
