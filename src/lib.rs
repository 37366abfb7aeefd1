//! Mining client core: nonce search with a deadline and risk policy, choice of
//! the distribution channel, priority fees, and the decisions of each mining
//! cycle.
use vstd::prelude::*;

pub mod amount;
pub mod args;
pub mod channel;
pub mod deadline;
pub mod fee;
pub mod miner;
pub mod report;
pub mod search;
pub mod state;

pub use amount::{amount_string_to_u64, amount_u64_to_string};
pub use args::{
    BalanceArgs, BenchmarkArgs, BussesArgs, CloseArgs, ConfigArgs, DifficultyPayload,
    InitializeArgs, MineArgs, ParallelStrategy, ProofArgs, RewardsArgs,
};
pub use miner::{Miner, SrcType};

verus! {

} // verus!
