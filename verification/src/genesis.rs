//! Genesis configuration types.

use vstd::prelude::*;
use crate::governance::{Constitution, ConstitutionalCommitteeMember};
use crate::primitives::{
    Address, DigestBlake2b224, Lovelace, NetworkMagic, NumberOfBytes, Ratio, StakePoolId,
    UtcTime, VrfVerificationKey,
};
use crate::protocol::{
    CostModels, DelegateRepresentativeVotingThresholds, ProtocolParameters,
    ScriptExecutionPrices, StakePoolVotingThresholds,
};
use crate::transaction::ExUnits;

verus! {

/// First-era genesis configuration.
#[derive(Debug, Clone, PartialEq, Eq)]
pub struct GenesisByron {
    /// Genesis key hashes.
    pub genesis_key_hashes: Vec<DigestBlake2b224>,
    /// Genesis delegates, keyed by issuer, in insertion order.
    pub genesis_delegates: Vec<(String, GenesisDelegate)>,
    /// Start time.
    pub start_time: UtcTime,
    /// Initial funds, in insertion order.
    pub initial_funds: Vec<(Address, Lovelace)>,
    /// Security parameter.
    pub security_parameter: u64,
    /// Network magic.
    pub network_magic: NetworkMagic,
    /// Protocol parameters.
    pub protocol_parameters: Option<BootstrapProtocolParameters>,
}

/// Genesis delegate.
#[derive(Debug, Clone, PartialEq, Eq)]
pub struct GenesisDelegate {
    /// Delegate key hash.
    pub delegate: DigestBlake2b224,
    /// VRF key hash.
    pub vrf: VrfVerificationKey,
}

/// Bootstrap protocol parameters.
#[derive(Debug, Clone, PartialEq, Eq)]
pub struct BootstrapProtocolParameters {
    /// Minimum fee coefficient.
    pub min_fee_coefficient: u64,
    /// Minimum fee constant.
    pub min_fee_constant: Lovelace,
    /// Maximum block body size.
    pub max_block_body_size: NumberOfBytes,
    /// Maximum block header size.
    pub max_block_header_size: NumberOfBytes,
    /// Maximum transaction size.
    pub max_transaction_size: NumberOfBytes,
    /// Maximum update proposals per epoch.
    pub max_update_proposals_per_epoch: Option<u64>,
}

/// Second-era genesis configuration.
#[derive(Debug, Clone, PartialEq, Eq)]
pub struct GenesisShelley {
    /// Network name.
    pub network: String,
    /// Network magic.
    pub network_magic: NetworkMagic,
    /// Start time.
    pub start_time: UtcTime,
    /// Security parameter.
    pub security_parameter: u64,
    /// Active slots coefficient.
    pub active_slots_coefficient: Ratio,
    /// Epoch length.
    pub epoch_length: u64,
    /// Slots per KES period.
    pub slots_per_kes_period: u64,
    /// Maximum KES evolutions.
    pub max_kes_evolutions: u64,
    /// Update quorum.
    pub update_quorum: u64,
    /// Maximum lovelace supply.
    pub max_lovelace_supply: Lovelace,
    /// Initial funds, in insertion order.
    pub initial_funds: Vec<(Address, Lovelace)>,
    /// Initial stake pools.
    pub initial_stake_pools: GenesisStakePools,
    /// Initial delegates.
    pub initial_delegates: Vec<InitialDelegate>,
    /// Protocol parameters.
    pub protocol_parameters: Option<ProtocolParameters>,
}

/// Genesis stake pools configuration.
#[derive(Debug, Clone, PartialEq, Eq)]
pub struct GenesisStakePools {
    /// Stake pool registrations, carried as raw wire text, in insertion
    /// order.
    pub stake_pools: Vec<(StakePoolId, String)>,
    /// Stake delegations, in insertion order.
    pub delegators: Vec<(DigestBlake2b224, StakePoolId)>,
}

/// Initial delegate configuration.
#[derive(Debug, Clone, PartialEq, Eq)]
pub struct InitialDelegate {
    /// Issuer (genesis key hash).
    pub issuer: DigestBlake2b224,
    /// Delegate.
    pub delegate: DigestBlake2b224,
    /// VRF key.
    pub vrf: VrfVerificationKey,
}

/// Third-era genesis configuration.
#[derive(Debug, Clone, PartialEq, Eq)]
pub struct GenesisAlonzo {
    /// Script cost models.
    pub cost_models: CostModels,
    /// Script execution prices.
    pub prices: ScriptExecutionPrices,
    /// Maximum execution units per transaction.
    pub max_execution_units_per_transaction: ExUnits,
    /// Maximum execution units per block.
    pub max_execution_units_per_block: ExUnits,
    /// Maximum value size.
    pub max_value_size: NumberOfBytes,
    /// Collateral percentage.
    pub collateral_percentage: u64,
    /// Maximum collateral inputs.
    pub max_collateral_inputs: u64,
}

/// Latest-era genesis configuration.
#[derive(Debug, Clone, PartialEq, Eq)]
pub struct GenesisConway {
    /// Constitution.
    pub constitution: Option<Constitution>,
    /// Constitutional committee.
    pub constitutional_committee: Option<ConstitutionalCommitteeConfig>,
    /// Delegate representative voting thresholds.
    pub delegate_representative_voting_thresholds: Option<
        DelegateRepresentativeVotingThresholds,
    >,
    /// Stake pool voting thresholds.
    pub stake_pool_voting_thresholds: Option<StakePoolVotingThresholds>,
    /// Governance action lifetime.
    pub governance_action_lifetime: Option<u64>,
    /// Governance action deposit.
    pub governance_action_deposit: Option<crate::primitives::AdaValue>,
    /// Delegate representative deposit.
    pub delegate_representative_deposit: Option<crate::primitives::AdaValue>,
    /// Delegate representative maximum idle time.
    pub delegate_representative_max_idle_time: Option<u64>,
    /// Constitutional committee minimum size.
    pub constitutional_committee_min_size: Option<u64>,
    /// Constitutional committee maximum term length.
    pub constitutional_committee_max_term_length: Option<u64>,
    /// Script cost models.
    pub plutus_cost_models: Option<CostModels>,
}

/// Constitutional committee initial configuration.
#[derive(Debug, Clone, PartialEq, Eq)]
pub struct ConstitutionalCommitteeConfig {
    /// Initial members.
    pub members: Vec<ConstitutionalCommitteeMember>,
    /// Quorum threshold.
    pub quorum: Ratio,
}

/// Genesis configuration, by era.
#[derive(Debug, Clone, PartialEq, Eq)]
pub enum GenesisConfiguration {
    /// First era.
    Byron(GenesisByron),
    /// Second era.
    Shelley(GenesisShelley),
    /// Third era.
    Alonzo(GenesisAlonzo),
    /// Latest era.
    Conway(GenesisConway),
}

} // verus!
