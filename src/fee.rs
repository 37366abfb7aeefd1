use vstd::prelude::*;

verus! {

/// A fee bounded by an optional cap.
pub open spec fn clamp_spec(fee: u64, cap: Option<u64>) -> u64 {
    match cap {
        Some(c) => if fee <= c {
            fee
        } else {
            c
        },
        None => fee,
    }
}

/// The fee, lowered to the cap when one is configured.
pub fn clamp_fee(fee: u64, cap: Option<u64>) -> (r: u64)
    ensures
        r == clamp_spec(fee, cap),
{
    match cap {
        Some(c) => if fee <= c {
            fee
        } else {
            c
        },
        None => fee,
    }
}

/// A configured cap bounds every fee that passes through the clamp, whatever
/// the fee reported upstream.
pub proof fn lemma_clamp_within_cap(fee: u64, cap: u64)
    ensures
        clamp_spec(fee, Some(cap)) <= cap,
        clamp_spec(fee, Some(cap)) <= fee,
        fee <= cap ==> clamp_spec(fee, Some(cap)) == fee,
{
}

/// The fee with its premium: `base + base * percent / 100` when the difficulty
/// exceeds the threshold, else `base`; bounded by `u64::MAX` and by the cap.
pub open spec fn premium_fee_spec(
    base: u64,
    difficulty: u32,
    threshold: u32,
    percent: u64,
    cap: Option<u64>,
) -> int {
    let raised = if difficulty > threshold {
        base + base * percent / 100
    } else {
        base as int
    };
    let bounded = if raised > u64::MAX {
        u64::MAX as int
    } else {
        raised
    };
    match cap {
        Some(c) => if bounded <= c {
            bounded
        } else {
            c as int
        },
        None => bounded,
    }
}

pub fn fee_with_premium(base: u64, difficulty: u32, threshold: u32, percent: u64, cap: Option<u64>) -> (r:
    u64)
    ensures
        r as int == premium_fee_spec(base, difficulty, threshold, percent, cap),
{
    let raised: u128 = if difficulty > threshold {
        proof {
            assert(base as int * percent as int <= u64::MAX as int * u64::MAX as int) by (
            nonlinear_arith)
                requires
                    base <= u64::MAX,
                    percent <= u64::MAX,
            ;
        }
        let product: u128 = base as u128 * percent as u128;
        base as u128 + product / 100
    } else {
        base as u128
    };
    let bounded: u64 = if raised > u64::MAX as u128 {
        u64::MAX
    } else {
        raised as u64
    };
    clamp_fee(bounded, cap)
}

/// The premium never lifts a fee past a configured cap.
pub proof fn lemma_premium_within_cap(base: u64, difficulty: u32, threshold: u32, percent: u64, cap: u64)
    ensures
        premium_fee_spec(base, difficulty, threshold, percent, Some(cap)) <= cap,
        premium_fee_spec(base, difficulty, threshold, percent, Some(cap)) >= 0,
{
    assert(base * percent >= 0) by (nonlinear_arith)
        requires
            base >= 0,
            percent >= 0,
    ;
}

/// The request and response shape of a fee estimate service.
#[derive(Clone, Copy, Debug, PartialEq, Eq, Structural)]
pub enum FeeStrategy {
    /// `getPriorityFeeEstimate`, answered with a recommended fee.
    Helius,
    /// `getRecentPrioritizationFees`, answered with a list of recent fees.
    Triton,
}

/// Equality of two strings, character by character.
pub fn str_eq(a: &str, b: &str) -> (r: bool)
    ensures
        r == (a@ == b@),
{
    let n = a.unicode_len();
    if n != b.unicode_len() {
        return false;
    }
    let mut i: usize = 0;
    while i < n
        invariant
            n == a@.len(),
            n == b@.len(),
            i <= n,
            forall|k: int| 0 <= k < i ==> a@[k] == b@[k],
        decreases n - i,
    {
        if a.get_char(i) != b.get_char(i) {
            return false;
        }
        i = i + 1;
    }
    assert(a@ =~= b@);
    true
}

impl FeeStrategy {
    /// The name of the strategy, as configured.
    pub open spec fn name_spec(self) -> Seq<char> {
        match self {
            FeeStrategy::Helius => "helius"@,
            FeeStrategy::Triton => "triton"@,
        }
    }

    pub fn name(&self) -> (r: &'static str)
        ensures
            r@ == self.name_spec(),
    {
        match self {
            FeeStrategy::Helius => "helius",
            FeeStrategy::Triton => "triton",
        }
    }

    /// The strategy a configuration string names; an unknown name selects none,
    /// and the static fee applies.
    pub fn parse(s: &str) -> (r: Option<FeeStrategy>)
        ensures
            r == strategy_of(s@),
    {
        if str_eq(s, "helius") {
            Some(FeeStrategy::Helius)
        } else if str_eq(s, "triton") {
            Some(FeeStrategy::Triton)
        } else {
            None
        }
    }
}

/// The fee strategy a configuration string names, if any.
pub open spec fn strategy_of(s: Seq<char>) -> Option<FeeStrategy> {
    if s == FeeStrategy::Helius.name_spec() {
        Some(FeeStrategy::Helius)
    } else if s == FeeStrategy::Triton.name_spec() {
        Some(FeeStrategy::Triton)
    } else {
        None
    }
}

/// Why a fee estimate could not be had.
#[derive(Clone, Copy, Debug, PartialEq, Eq, Structural)]
pub enum FeeError {
    /// A strategy is configured but no endpoint to ask.
    MissingEndpoint,
    /// The service could not be reached or its answer held no fee.
    QuoteUnavailable,
}

} // verus!
