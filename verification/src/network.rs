//! Network names and network-level query results.

use vstd::prelude::*;
use crate::primitives::{AdaValue, NumberOfBytes, RewardAccount, StakeAddress, StakePoolId};

verus! {

/// Cardano network names.
#[derive(Debug, Clone, Copy, PartialEq, Eq, Structural)]
pub enum Network {
    Mainnet,
    Preview,
    Preprod,
    Other,
}

/// The display spelling of a network name.
pub open spec fn network_str(n: Network) -> Seq<char> {
    match n {
        Network::Mainnet => "mainnet"@,
        Network::Preview => "preview"@,
        Network::Preprod => "preprod"@,
        Network::Other => "unknown"@,
    }
}

impl Network {
    /// Get the network as a string.
    pub fn as_str(&self) -> (r: &'static str)
        ensures
            r@ == network_str(*self),
    {
        match self {
            Network::Mainnet => "mainnet",
            Network::Preview => "preview",
            Network::Preprod => "preprod",
            Network::Other => "unknown",
        }
    }
}

/// Mempool size and capacity.
#[derive(Debug, Clone, PartialEq, Eq)]
pub struct MempoolSizeAndCapacity {
    /// Current number of bytes in the mempool.
    pub bytes: NumberOfBytes,
    /// Current number of transactions in the mempool.
    pub transactions: u64,
    /// Maximum capacity in bytes.
    pub max_bytes: NumberOfBytes,
    /// Maximum number of transactions.
    pub max_transactions: u64,
}

/// Reward account summary.
#[derive(Debug, Clone, PartialEq, Eq)]
pub struct RewardAccountSummary {
    /// Reward account address.
    pub address: RewardAccount,
    /// Delegated stake pool (if any).
    pub delegate: Option<StakePoolId>,
    /// Current rewards balance.
    pub rewards: AdaValue,
    /// Deposit amount.
    pub deposit: AdaValue,
}

/// Live stake distribution entry.
#[derive(Debug, Clone, PartialEq, Eq)]
pub struct LiveStakeDistributionEntry {
    /// Stake pool identifier.
    pub stake_pool: StakePoolId,
    /// Total stake delegated.
    pub stake: AdaValue,
}

/// Projected rewards for one stake address.
#[derive(Debug, Clone, PartialEq, Eq)]
pub struct ProjectedRewards {
    /// Stake address.
    pub address: StakeAddress,
    /// Projected rewards.
    pub rewards: AdaValue,
}

} // verus!
