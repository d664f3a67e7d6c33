//! Protocol parameter types.

use vstd::prelude::*;
use crate::primitives::{AdaValue, Nonce, NumberOfBytes, Ratio};
use crate::transaction::ExUnits;

verus! {

/// Block size specification.
#[derive(Debug, Clone, Copy, PartialEq, Eq, Structural)]
pub struct BlockSize {
    /// Size in bytes.
    pub bytes: NumberOfBytes,
}

/// Protocol version.
#[derive(Debug, Clone, Copy, PartialEq, Eq, Structural)]
pub struct ProtocolVersion {
    /// Major version.
    pub major: u32,
    /// Minor version.
    pub minor: u32,
    /// Patch version (optional).
    pub patch: Option<u32>,
}

/// Cost models for the script languages.
#[derive(Debug, Clone, PartialEq, Eq)]
pub struct CostModels {
    /// Plutus V1 cost model.
    pub plutus_v1: Option<Vec<i64>>,
    /// Plutus V2 cost model.
    pub plutus_v2: Option<Vec<i64>>,
    /// Plutus V3 cost model.
    pub plutus_v3: Option<Vec<i64>>,
}

/// Script execution prices.
#[derive(Debug, Clone, PartialEq, Eq)]
pub struct ScriptExecutionPrices {
    /// Memory price (lovelace per unit).
    pub memory: Ratio,
    /// Processor price (lovelace per step).
    pub cpu: Ratio,
}

/// Stake pool voting thresholds.
#[derive(Debug, Clone, PartialEq, Eq)]
pub struct StakePoolVotingThresholds {
    /// No confidence threshold.
    pub no_confidence: Ratio,
    /// Constitutional committee update threshold.
    pub constitutional_committee: ConstitutionalCommitteeThresholds,
    /// Hard fork initiation threshold.
    pub hard_fork_initiation: Ratio,
    /// Protocol parameters update threshold.
    pub protocol_parameters_update: Option<ProtocolParametersUpdateThresholds>,
}

/// Constitutional committee thresholds.
#[derive(Debug, Clone, PartialEq, Eq)]
pub struct ConstitutionalCommitteeThresholds {
    /// Default threshold.
    pub default_threshold: Ratio,
    /// State-of-no-confidence threshold.
    pub state_of_no_confidence: Ratio,
}

/// Protocol parameters update thresholds.
#[derive(Debug, Clone, PartialEq, Eq)]
pub struct ProtocolParametersUpdateThresholds {
    /// Security threshold.
    pub security: Ratio,
}

/// Delegate representative voting thresholds.
#[derive(Debug, Clone, PartialEq, Eq)]
pub struct DelegateRepresentativeVotingThresholds {
    /// No confidence threshold.
    pub no_confidence: Ratio,
    /// Constitution threshold.
    pub constitution: Ratio,
    /// Constitutional committee update threshold.
    pub constitutional_committee: ConstitutionalCommitteeThresholds,
    /// Hard fork initiation threshold.
    pub hard_fork_initiation: Ratio,
    /// Protocol parameters update thresholds.
    pub protocol_parameters_update: DRepProtocolParametersUpdateThresholds,
    /// Treasury withdrawal threshold.
    pub treasury_withdrawals: Ratio,
}

/// Delegate representative protocol parameters update thresholds.
#[derive(Debug, Clone, PartialEq, Eq)]
pub struct DRepProtocolParametersUpdateThresholds {
    /// Network threshold.
    pub network: Ratio,
    /// Economic threshold.
    pub economic: Ratio,
    /// Technical threshold.
    pub technical: Ratio,
    /// Governance threshold.
    pub governance: Ratio,
}

/// Partial protocol parameters for updates.
#[derive(Debug, Clone, PartialEq, Eq)]
pub struct PartialProtocolParameters {
    pub min_fee_coefficient: Option<u64>,
    pub min_fee_constant: Option<AdaValue>,
    pub max_block_body_size: Option<BlockSize>,
    pub max_block_header_size: Option<BlockSize>,
    pub max_transaction_size: Option<BlockSize>,
    pub stake_credential_deposit: Option<AdaValue>,
    pub stake_pool_deposit: Option<AdaValue>,
    pub stake_pool_retirement_epoch_bound: Option<u64>,
    pub desired_number_of_stake_pools: Option<u64>,
    pub stake_pool_pledge_influence: Option<Ratio>,
    pub monetary_expansion: Option<Ratio>,
    pub treasury_expansion: Option<Ratio>,
    pub version: Option<ProtocolVersion>,
    pub min_stake_pool_cost: Option<AdaValue>,
    pub plutus_cost_models: Option<CostModels>,
    pub script_execution_prices: Option<ScriptExecutionPrices>,
    pub max_execution_units_per_transaction: Option<ExUnits>,
    pub max_execution_units_per_block: Option<ExUnits>,
    pub max_collateral_inputs: Option<u64>,
    pub collateral_percentage: Option<u64>,
    pub max_value_size: Option<BlockSize>,
}

/// Protocol parameters.
#[derive(Debug, Clone, PartialEq, Eq)]
pub struct ProtocolParameters {
    /// Minimum fee coefficient (per byte).
    pub min_fee_coefficient: u64,
    /// Minimum fee constant.
    pub min_fee_constant: AdaValue,
    /// Maximum block body size in bytes.
    pub max_block_body_size: BlockSize,
    /// Maximum block header size in bytes.
    pub max_block_header_size: BlockSize,
    /// Maximum transaction size in bytes.
    pub max_transaction_size: BlockSize,
    /// Stake key deposit.
    pub stake_credential_deposit: AdaValue,
    /// Pool registration deposit.
    pub stake_pool_deposit: AdaValue,
    /// Pool retirement epoch bound.
    pub stake_pool_retirement_epoch_bound: u64,
    /// Desired number of stake pools.
    pub desired_number_of_stake_pools: u64,
    /// Stake pool pledge influence.
    pub stake_pool_pledge_influence: Ratio,
    /// Monetary expansion.
    pub monetary_expansion: Ratio,
    /// Treasury expansion.
    pub treasury_expansion: Ratio,
    /// Protocol version.
    pub version: ProtocolVersion,
    /// Minimum stake pool cost.
    pub min_stake_pool_cost: AdaValue,
    /// Extra entropy (always neutral in current eras).
    pub extra_entropy: Option<Nonce>,
    /// Minimum deposit coefficient for an output (lovelace per byte).
    pub min_utxo_deposit_coefficient: Option<u64>,
    /// Minimum deposit constant for an output.
    pub min_utxo_deposit_constant: Option<AdaValue>,
    /// Plutus cost models.
    pub plutus_cost_models: Option<CostModels>,
    /// Script execution prices.
    pub script_execution_prices: Option<ScriptExecutionPrices>,
    /// Maximum execution units per transaction.
    pub max_execution_units_per_transaction: Option<ExUnits>,
    /// Maximum execution units per block.
    pub max_execution_units_per_block: Option<ExUnits>,
    /// Maximum collateral inputs.
    pub max_collateral_inputs: Option<u64>,
    /// Collateral percentage.
    pub collateral_percentage: Option<u64>,
    /// Maximum value size in bytes.
    pub max_value_size: Option<BlockSize>,
    /// Delegate representative deposit.
    pub delegate_representative_deposit: Option<AdaValue>,
    /// Delegate representative maximum idle time.
    pub delegate_representative_max_idle_time: Option<u64>,
    /// Governance action deposit.
    pub governance_action_deposit: Option<AdaValue>,
    /// Governance action lifetime.
    pub governance_action_lifetime: Option<u64>,
    /// Constitutional committee minimum size.
    pub constitutional_committee_min_size: Option<u64>,
    /// Constitutional committee maximum term length.
    pub constitutional_committee_max_term_length: Option<u64>,
    /// Stake pool voting thresholds.
    pub stake_pool_voting_thresholds: Option<StakePoolVotingThresholds>,
    /// Delegate representative voting thresholds.
    pub delegate_representative_voting_thresholds: Option<
        DelegateRepresentativeVotingThresholds,
    >,
}

} // verus!
