use vstd::prelude::*;

verus! {

/// Seconds between two consecutive accepted hashes of one proof account.
pub const EPOCH_SLOT_SECONDS: i64 = 60;

/// Length of a reward epoch, in seconds.
pub const EPOCH_DURATION: i64 = 60;

/// Seconds before the end of an epoch from which a reset is considered due.
pub const RESET_SAFETY_MARGIN: i64 = 5;

/// Largest value a cutoff can take: the range of the ledger's signed timestamps.
pub open spec fn cutoff_cap() -> int {
    i64::MAX as int
}

/// Seconds left before the submission deadline of a proof whose last hash was
/// accepted at `last_hash_at`, keeping `buffer` seconds in hand, at time `now`.
pub open spec fn cutoff_spec(last_hash_at: i64, buffer: u64, now: i64) -> int {
    let raw = last_hash_at + EPOCH_SLOT_SECONDS - buffer - now;
    if raw < 0 {
        0
    } else if raw > cutoff_cap() {
        cutoff_cap()
    } else {
        raw
    }
}

/// Search time budget: `last_hash_at + 60 - buffer - now`, floored at zero
/// (and held within the range of signed timestamps).
pub fn compute_cutoff(last_hash_at: i64, buffer: u64, now: i64) -> (r: u64)
    ensures
        r as int == cutoff_spec(last_hash_at, buffer, now),
{
    let raw: i128 = last_hash_at as i128 + EPOCH_SLOT_SECONDS as i128 - buffer as i128 - now as i128;
    if raw < 0 {
        0
    } else if raw > i64::MAX as i128 {
        i64::MAX as u64
    } else {
        raw as u64
    }
}

/// The cutoff never grows as time passes, and is never negative.
pub proof fn lemma_cutoff_monotone(last_hash_at: i64, buffer: u64, now: i64, later: i64)
    requires
        now <= later,
    ensures
        cutoff_spec(last_hash_at, buffer, later) <= cutoff_spec(last_hash_at, buffer, now),
        cutoff_spec(last_hash_at, buffer, now) >= 0,
{
}

/// The epoch that began at `last_reset_at` is close enough to its end at `now`
/// for a reset to be due.
pub open spec fn reset_due_spec(last_reset_at: i64, now: i64) -> bool {
    last_reset_at + EPOCH_DURATION - RESET_SAFETY_MARGIN <= now
}

/// True when `last_reset_at + epoch duration - safety margin <= now`.
pub fn should_reset(last_reset_at: i64, now: i64) -> (r: bool)
    ensures
        r == reset_due_spec(last_reset_at, now),
{
    (last_reset_at as i128 + EPOCH_DURATION as i128 - RESET_SAFETY_MARGIN as i128) <= now as i128
}

/// One chance in this many per cycle that a due reset is acted upon.
pub const RESET_ODDS: u64 = 100;

/// A due reset is taken up only on a zero `draw`, which keeps concurrent
/// clients from all racing to perform it.
pub fn reset_taken(due: bool, draw: u64) -> (r: bool)
    ensures
        r == (due && draw == 0),
{
    due && draw == 0
}

} // verus!
