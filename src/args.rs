use vstd::prelude::*;

verus! {

/// Arguments of the balance command.
#[derive(Clone, Debug, PartialEq, Eq)]
pub struct BalanceArgs {
    /// The account address to fetch the balance of.
    pub address: Option<String>,
}

/// Arguments of the benchmark command.
#[derive(Clone, Debug, PartialEq, Eq)]
pub struct BenchmarkArgs {
    /// The number of cores to use during the benchmark.
    pub cores: u64,
}

/// Arguments of the busses command.
#[derive(Clone, Debug, PartialEq, Eq)]
pub struct BussesArgs {}

/// Arguments of the close command.
#[derive(Clone, Debug, PartialEq, Eq)]
pub struct CloseArgs {}

/// Arguments of the config command.
#[derive(Clone, Debug, PartialEq, Eq)]
pub struct ConfigArgs {}

/// Arguments of the initialize command.
#[derive(Clone, Debug, PartialEq, Eq)]
pub struct InitializeArgs {}

/// Arguments of the proof command.
#[derive(Clone, Debug, PartialEq, Eq)]
pub struct ProofArgs {
    /// The address of the proof to fetch.
    pub address: Option<String>,
}

/// Arguments of the rewards command.
#[derive(Clone, Debug, PartialEq, Eq)]
pub struct RewardsArgs {}

/// How the search is spread over the machine: one worker per core, pinned, or a
/// number of unpinned threads.
#[derive(Clone, Copy, Debug, PartialEq, Eq, Structural)]
pub enum ParallelStrategy {
    Cores(u64),
    Threads(u64),
}

/// Arguments of the mine command.
#[derive(Clone, Debug, PartialEq, Eq)]
pub struct MineArgs {
    /// The number of CPU cores to allocate to mining.
    pub cores: Option<u64>,
    /// The number of CPU threads to allocate to mining.
    pub threads: Option<u64>,
    /// Seconds before the deadline at which to stop mining and submit.
    pub buffer_time: u64,
    /// Nonces between two readings of the clock.
    pub nonce_checkpoint_step: u64,
    /// The difficulty the miner wants before submitting.
    pub expected_min_difficulty: u32,
    /// Extra seconds to keep hashing while the expected difficulty is unmet.
    pub risk_time: u64,
    /// Difficulty above which a premium is added to the priority fee.
    pub extra_fee_difficulty: u32,
    /// The premium, in percent of the priority fee (0 to 100).
    pub extra_fee_percent: u64,
    /// Difficulty from which an accepted solution is reported to the webhook.
    pub slack_difficulty: u32,
}

impl MineArgs {
    /// Cores when a core count is given, else threads when a thread count is
    /// given, else a single core.
    pub fn parallel_strategy(&self) -> (r: ParallelStrategy)
        ensures
            self.cores matches Some(c) ==> r == ParallelStrategy::Cores(c),
            self.cores is None ==> (self.threads matches Some(t) ==> r == ParallelStrategy::Threads(t)),
            self.cores is None && self.threads is None ==> r == ParallelStrategy::Cores(1),
    {
        match self.cores {
            Some(c) => ParallelStrategy::Cores(c),
            None => match self.threads {
                Some(t) => ParallelStrategy::Threads(t),
                None => ParallelStrategy::Cores(1),
            },
        }
    }

    /// The difficulty policy of a cycle whose solution reached `solution_difficulty`.
    pub fn difficulty_payload(&self, solution_difficulty: u32) -> (r: DifficultyPayload)
        ensures
            r.solution_difficulty == solution_difficulty,
            r.expected_min_difficulty == self.expected_min_difficulty,
            r.extra_fee_difficulty == self.extra_fee_difficulty,
            r.extra_fee_percent == self.extra_fee_percent,
            r.slack_difficulty == self.slack_difficulty,
    {
        DifficultyPayload {
            solution_difficulty,
            expected_min_difficulty: self.expected_min_difficulty,
            extra_fee_difficulty: self.extra_fee_difficulty,
            extra_fee_percent: self.extra_fee_percent,
            slack_difficulty: self.slack_difficulty,
        }
    }
}

/// A solution's difficulty together with the policy that prices it.
#[derive(Clone, Copy, Debug, PartialEq, Eq, Structural)]
pub struct DifficultyPayload {
    pub solution_difficulty: u32,
    pub expected_min_difficulty: u32,
    pub extra_fee_difficulty: u32,
    pub extra_fee_percent: u64,
    pub slack_difficulty: u32,
}

impl DifficultyPayload {
    /// The priority fee for this solution: the base fee, raised by the premium
    /// when the difficulty exceeds the extra-fee threshold, within the cap.
    pub fn priority_fee(&self, base: u64, cap: Option<u64>) -> (r: u64)
        ensures
            r as int == crate::fee::premium_fee_spec(
                base,
                self.solution_difficulty,
                self.extra_fee_difficulty,
                self.extra_fee_percent,
                cap,
            ),
    {
        crate::fee::fee_with_premium(
            base,
            self.solution_difficulty,
            self.extra_fee_difficulty,
            self.extra_fee_percent,
            cap,
        )
    }
}

} // verus!
