use crate::channel::{decoded_by, is_selection, known_channels, pick_channel, Channel, BUS_COUNT};
use crate::deadline::{reset_due_spec, reset_taken, should_reset, RESET_ODDS};
use crate::fee::{clamp_fee, clamp_spec, strategy_of, FeeError, FeeStrategy};
use rand::Rng;
use vstd::prelude::*;

verus! {

/// Relies on rand's `thread_rng().gen_range(0..n)`: a draw below `n`; the
/// range must not be empty.
#[verifier::external_body]
fn random_below(n: u64) -> (r: u64)
    requires
        n > 0,
    ensures
        r < n,
{
    rand::thread_rng().gen_range(0..n)
}

/// Relies on num_cpus::get: the number of logical CPUs of this machine.
#[verifier::external_body]
fn available_cores() -> (r: u64) {
    num_cpus::get() as u64
}

/// The client's configuration: key files, fee settings and notification
/// targets.
#[derive(Clone, Debug)]
pub struct Miner {
    pub keypair_filepath: Option<String>,
    pub priority_fee: Option<u64>,
    pub priority_fee_cap: Option<u64>,
    pub dynamic_fee_url: Option<String>,
    pub dynamic_fee_strategy: Option<String>,
    pub fee_payer_filepath: Option<String>,
    pub slack_webhook: Option<String>,
    pub discord_webhook: Option<String>,
    pub no_sound_notification: bool,
}

impl Miner {
    pub fn new(
        priority_fee: Option<u64>,
        priority_fee_cap: Option<u64>,
        keypair_filepath: Option<String>,
        dynamic_fee_url: Option<String>,
        dynamic_fee_strategy: Option<String>,
        fee_payer_filepath: Option<String>,
        slack_webhook: Option<String>,
        discord_webhook: Option<String>,
        no_sound_notification: bool,
    ) -> (r: Miner)
        ensures
            r.priority_fee == priority_fee,
            r.priority_fee_cap == priority_fee_cap,
            r.keypair_filepath == keypair_filepath,
            r.dynamic_fee_url == dynamic_fee_url,
            r.dynamic_fee_strategy == dynamic_fee_strategy,
            r.fee_payer_filepath == fee_payer_filepath,
            r.slack_webhook == slack_webhook,
            r.discord_webhook == discord_webhook,
            r.no_sound_notification == no_sound_notification,
    {
        Miner {
            keypair_filepath,
            priority_fee,
            priority_fee_cap,
            dynamic_fee_url,
            dynamic_fee_strategy,
            fee_payer_filepath,
            slack_webhook,
            discord_webhook,
            no_sound_notification,
        }
    }

    /// The strategy in use: none when none is configured or its name is
    /// unknown.
    pub open spec fn strategy_spec(&self) -> Option<FeeStrategy> {
        match self.dynamic_fee_strategy {
            Some(s) => strategy_of(s@),
            None => None,
        }
    }

    pub fn fee_strategy(&self) -> (r: Option<FeeStrategy>)
        ensures
            r == self.strategy_spec(),
    {
        match &self.dynamic_fee_strategy {
            Some(s) => FeeStrategy::parse(s.as_str()),
            None => None,
        }
    }

    /// The configured static fee (zero when unset), within the cap.
    pub open spec fn static_fee_spec(&self) -> u64 {
        clamp_spec(
            match self.priority_fee {
                Some(f) => f,
                None => 0,
            },
            self.priority_fee_cap,
        )
    }

    pub fn static_fee(&self) -> (r: u64)
        ensures
            r == self.static_fee_spec(),
    {
        let f = match self.priority_fee {
            Some(f) => f,
            None => 0,
        };
        clamp_fee(f, self.priority_fee_cap)
    }

    /// The priority fee of a cycle. Without a strategy it is the static fee.
    /// With one, `reported` is what the estimate service answered (none when it
    /// could not be reached or its answer held no fee): the fee is that
    /// answer within the cap, and a missing endpoint or answer is an error.
    pub open spec fn quote_spec(&self, reported: Option<u64>) -> Result<u64, FeeError> {
        if self.strategy_spec() is None {
            Ok(self.static_fee_spec())
        } else if self.dynamic_fee_url is None {
            Err(FeeError::MissingEndpoint)
        } else {
            match reported {
                Some(f) => Ok(clamp_spec(f, self.priority_fee_cap)),
                None => Err(FeeError::QuoteUnavailable),
            }
        }
    }

    pub fn dynamic_fee(&self, reported: Option<u64>) -> (r: Result<u64, FeeError>)
        ensures
            r == self.quote_spec(reported),
    {
        match self.fee_strategy() {
            None => Ok(self.static_fee()),
            Some(_) => {
                if self.dynamic_fee_url.is_none() {
                    Err(FeeError::MissingEndpoint)
                } else {
                    match reported {
                        Some(f) => Ok(clamp_fee(f, self.priority_fee_cap)),
                        None => Err(FeeError::QuoteUnavailable),
                    }
                }
            },
        }
    }

    /// The channel to submit to: the best channel among the batch's decode
    /// results (`select_decoded`), or a random one when the batch could not be
    /// read.
    pub fn find_bus(&self, batch: &Option<Vec<Option<Vec<u8>>>>) -> (r: u64)
        ensures
            r < BUS_COUNT,
            batch matches Some(accounts) ==> exists|d: Seq<Option<Channel>>|
                decoded_by(accounts@, d) && is_selection(known_channels(d), r),
    {
        let draw = if batch.is_none() {
            random_below(BUS_COUNT)
        } else {
            0
        };
        pick_channel(batch, draw)
    }

    /// Whether this cycle performs the epoch reset: only when one is due, and
    /// then with one chance in `RESET_ODDS`.
    pub fn maintenance_due(&self, last_reset_at: i64, now: i64) -> (r: bool)
        ensures
            r ==> reset_due_spec(last_reset_at, now),
    {
        let due = should_reset(last_reset_at, now);
        let draw = random_below(RESET_ODDS);
        reset_taken(due, draw)
    }

    /// Whether more cores are asked for than the machine has.
    pub fn check_num_cores(&self, cores: u64) -> (r: bool) {
        exceeds_available(cores, available_cores())
    }

    /// Whether more threads are asked for than the machine has cores.
    pub fn check_num_threads(&self, threads: u64) -> (r: bool) {
        exceeds_available(threads, available_cores())
    }
}

/// Whatever the estimate service reports, a quoted fee never exceeds a
/// configured cap.
pub proof fn lemma_quote_within_cap(m: Miner, reported: Option<u64>)
    requires
        m.priority_fee_cap is Some,
    ensures
        m.quote_spec(reported) matches Ok(f) ==> f <= m.priority_fee_cap->Some_0,
{
}

/// A request for more workers than there are cores deserves a warning.
pub fn exceeds_available(requested: u64, available: u64) -> (r: bool)
    ensures
        r == (requested > available),
{
    requested > available
}

/// A proof record read while waiting is accepted once its timestamp is past
/// the baseline; until then the read is repeated.
pub fn proof_advanced(last_hash_at: i64, baseline: i64) -> (r: bool)
    ensures
        r == (last_hash_at > baseline),
{
    last_hash_at > baseline
}

/// The report owed to the notification sink: the previous solution's
/// difficulty, the reward it brought and the new balance.
#[derive(Clone, Copy, Debug, PartialEq, Eq, Structural)]
pub struct Notice {
    pub difficulty: u32,
    pub reward: u64,
    pub balance: u64,
}

/// What a cycle shows and sends once its proof record has been read.
#[derive(Clone, Copy, Debug, PartialEq, Eq, Structural)]
pub struct CycleStart {
    /// The notice to enqueue, if any.
    pub notice: Option<Notice>,
    /// The balance change to show, from the second cycle on.
    pub change: Option<u64>,
}

/// The state carried from one mining cycle to the next.
#[derive(Clone, Copy, Debug, PartialEq, Eq, Structural)]
pub struct MiningState {
    pub last_hash_at: i64,
    pub last_balance: u64,
    pub last_difficulty: u32,
}

/// Balance gained since the previous cycle; a loss counts as zero.
pub open spec fn balance_gain(balance: u64, last_balance: u64) -> u64 {
    if balance >= last_balance {
        (balance - last_balance) as u64
    } else {
        0
    }
}

impl MiningState {
    pub fn new() -> (r: MiningState)
        ensures
            r.last_hash_at == 0,
            r.last_balance == 0,
            r.last_difficulty == 0,
    {
        MiningState { last_hash_at: 0, last_balance: 0, last_difficulty: 0 }
    }

    /// Takes in the proof record of a new cycle. A notice is owed when the
    /// previous solution's difficulty met the threshold and a sink is
    /// configured; the change is shown once a hash was accepted before.
    pub fn begin_cycle(
        &mut self,
        balance: u64,
        last_hash_at: i64,
        notify_threshold: u32,
        notify_enabled: bool,
    ) -> (r: CycleStart)
        ensures
            r.notice == (if old(self).last_difficulty >= notify_threshold && notify_enabled {
                Some(
                    Notice {
                        difficulty: old(self).last_difficulty,
                        reward: balance_gain(balance, old(self).last_balance),
                        balance,
                    },
                )
            } else {
                None
            }),
            r.change == (if old(self).last_hash_at > 0 {
                Some(balance_gain(balance, old(self).last_balance))
            } else {
                None
            }),
            final(self).last_hash_at == last_hash_at,
            final(self).last_balance == balance,
            final(self).last_difficulty == old(self).last_difficulty,
    {
        let gain = balance.saturating_sub(self.last_balance);
        let notice = if self.last_difficulty >= notify_threshold && notify_enabled {
            Some(Notice { difficulty: self.last_difficulty, reward: gain, balance })
        } else {
            None
        };
        let change = if self.last_hash_at > 0 {
            Some(gain)
        } else {
            None
        };
        self.last_hash_at = last_hash_at;
        self.last_balance = balance;
        CycleStart { notice, change }
    }

    /// Records the outcome of a submission; the loop goes on only after a
    /// success, which also becomes the difficulty reported next cycle.
    pub fn end_cycle(&mut self, submitted: bool, difficulty: u32) -> (r: bool)
        ensures
            r == submitted,
            submitted ==> final(self).last_difficulty == difficulty,
            !submitted ==> final(self).last_difficulty == old(self).last_difficulty,
            final(self).last_hash_at == old(self).last_hash_at,
            final(self).last_balance == old(self).last_balance,
    {
        if submitted {
            self.last_difficulty = difficulty;
        }
        submitted
    }
}

/// Compute units of a submission without a reset.
pub const BASE_COMPUTE_BUDGET: u32 = 500_000;

/// Extra compute units when the submission also resets the epoch.
pub const RESET_COMPUTE_BUDGET: u32 = 100_000;

/// One instruction of a submission.
#[derive(Clone, Copy, Debug, PartialEq, Eq, Structural)]
pub enum Step {
    /// Authorizes the proof account.
    Auth,
    /// Resets the epoch.
    Reset,
    /// Claims the reward for the solution through a channel.
    Mine,
}

/// What a cycle submits: its instructions in order, and their compute budget.
#[derive(Clone, Debug)]
pub struct SubmissionPlan {
    pub steps: Vec<Step>,
    pub compute_budget: u32,
}

/// Authorization first, then the reset when it is due, then the claim.
pub fn plan_submission(reset: bool) -> (r: SubmissionPlan)
    ensures
        r.steps@ == (if reset {
            seq![Step::Auth, Step::Reset, Step::Mine]
        } else {
            seq![Step::Auth, Step::Mine]
        }),
        r.compute_budget == (if reset {
            BASE_COMPUTE_BUDGET + RESET_COMPUTE_BUDGET
        } else {
            BASE_COMPUTE_BUDGET as int
        }),
{
    let mut steps: Vec<Step> = Vec::new();
    steps.push(Step::Auth);
    let mut compute_budget: u32 = BASE_COMPUTE_BUDGET;
    if reset {
        steps.push(Step::Reset);
        compute_budget = compute_budget + RESET_COMPUTE_BUDGET;
    }
    steps.push(Step::Mine);
    assert(steps@ =~= (if reset {
        seq![Step::Auth, Step::Reset, Step::Mine]
    } else {
        seq![Step::Auth, Step::Mine]
    }));
    SubmissionPlan { steps, compute_budget }
}

/// Attempts at the latest blockhash before giving up.
pub const BLOCKHASH_QUERY_RETRIES: usize = 5;

/// Milliseconds between two attempts at the latest blockhash.
pub const BLOCKHASH_QUERY_DELAY: u64 = 500;

/// After a failed attempt: the count of failures so far, and whether to give
/// up (once the retries are spent).
pub fn blockhash_retry(attempts: usize) -> (r: (usize, bool))
    requires
        attempts < BLOCKHASH_QUERY_RETRIES,
    ensures
        r.0 == attempts + 1,
        r.1 == (attempts + 1 >= BLOCKHASH_QUERY_RETRIES),
{
    let next = attempts + 1;
    (next, next >= BLOCKHASH_QUERY_RETRIES)
}

/// A yes/no answer: `y` or `Y` is yes, `n` or `N` is no, anything else asks
/// again.
pub fn confirm_answer(c: char) -> (r: Option<bool>)
    ensures
        r == (if c == 'y' || c == 'Y' {
            Some(true)
        } else if c == 'n' || c == 'N' {
            Some(false)
        } else {
            None::<bool>
        }),
{
    if c == 'y' || c == 'Y' {
        Some(true)
    } else if c == 'n' || c == 'N' {
        Some(false)
    } else {
        None
    }
}

/// `min(x, u64::MAX)`.
pub open spec fn saturate(x: int) -> int {
    if x > u64::MAX {
        u64::MAX as int
    } else {
        x
    }
}

/// `2^e`, saturated at `u64::MAX`.
pub fn saturating_pow2(e: u32) -> (r: u64)
    ensures
        r as int == saturate(vstd::arithmetic::power2::pow2(e as nat) as int),
{
    let mut p: u64 = 1;
    let mut k: u32 = 0;
    let lim: u32 = if e < 64 {
        e
    } else {
        64
    };
    proof {
        vstd::arithmetic::power2::lemma2_to64();
        vstd::arithmetic::power2::lemma2_to64_rest();
    }
    while k < lim
        invariant
            k <= lim <= 64,
            p as int == saturate(vstd::arithmetic::power2::pow2(k as nat) as int),
            vstd::arithmetic::power2::pow2(64) == 0x1_0000_0000_0000_0000,
        decreases lim - k,
    {
        proof {
            vstd::arithmetic::power2::lemma_pow2_unfold((k + 1) as nat);
            if k < 63 {
                vstd::arithmetic::power2::lemma_pow2_strictly_increases(k as nat, 63);
            }
            vstd::arithmetic::power2::lemma2_to64();
        }
        if p > u64::MAX / 2 {
            p = u64::MAX;
        } else {
            p = p * 2;
        }
        k = k + 1;
    }
    proof {
        if e > 64 {
            vstd::arithmetic::power2::lemma_pow2_strictly_increases(64, e as nat);
        }
    }
    p
}

/// `a * b`, saturated at `u64::MAX`.
pub fn saturating_product(a: u64, b: u64) -> (r: u64)
    ensures
        r as int == saturate(a * b),
{
    match a.checked_mul(b) {
        Some(p) => p,
        None => u64::MAX,
    }
}

/// Reward per difficulty level: the base rate at `base_difficulty`, then for
/// each of the next 31 levels `d` the base rate times `2^d`, saturated.
pub fn reward_table(base_reward_rate: u64, base_difficulty: u32) -> (r: Vec<(u32, u64)>)
    requires
        base_difficulty + 31 <= u32::MAX,
    ensures
        r@.len() == 32,
        r@[0] == (base_difficulty, base_reward_rate),
        forall|i: int|
            1 <= i < 32 ==> (#[trigger] r@[i]).0 == base_difficulty + i && r@[i].1 as int
                == saturate(
                base_reward_rate * saturate(
                    vstd::arithmetic::power2::pow2((base_difficulty + i) as nat) as int,
                ),
            ),
{
    let mut table: Vec<(u32, u64)> = Vec::new();
    table.push((base_difficulty, base_reward_rate));
    let mut i: u32 = 1;
    while i < 32
        invariant
            1 <= i <= 32,
            base_difficulty + 31 <= u32::MAX,
            table@.len() == i,
            table@[0] == (base_difficulty, base_reward_rate),
            forall|k: int|
                1 <= k < i ==> (#[trigger] table@[k]).0 == base_difficulty + k && table@[k].1 as int
                    == saturate(
                    base_reward_rate * saturate(
                        vstd::arithmetic::power2::pow2((base_difficulty + k) as nat) as int,
                    ),
                ),
        decreases 32 - i,
    {
        let level: u32 = base_difficulty + i;
        let rate = saturating_product(base_reward_rate, saturating_pow2(level));
        table.push((level, rate));
        i = i + 1;
    }
    table
}

/// Where a notification comes from.
#[derive(Clone, Copy, Debug, PartialEq, Eq, Structural)]
pub enum SrcType {
    Pool,
    Solo,
}

impl SrcType {
    pub open spec fn name_spec(self) -> Seq<char> {
        match self {
            SrcType::Pool => "pool"@,
            SrcType::Solo => "solo"@,
        }
    }

    /// The name shown in a notification.
    pub fn as_str(&self) -> (r: &'static str)
        ensures
            r@ == self.name_spec(),
    {
        match self {
            SrcType::Pool => "pool",
            SrcType::Solo => "solo",
        }
    }

    /// The source a name denotes: `pool` or `solo`; any other name is unknown.
    pub fn parse(s: &str) -> (r: Option<SrcType>)
        ensures
            r == (if s@ == SrcType::Pool.name_spec() {
                Some(SrcType::Pool)
            } else if s@ == SrcType::Solo.name_spec() {
                Some(SrcType::Solo)
            } else {
                None::<SrcType>
            }),
    {
        if crate::fee::str_eq(s, "pool") {
            Some(SrcType::Pool)
        } else if crate::fee::str_eq(s, "solo") {
            Some(SrcType::Solo)
        } else {
            None
        }
    }
}

} // verus!
