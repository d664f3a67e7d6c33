//! Certificate types.

use vstd::prelude::*;
use crate::governance::{
    ConstitutionalCommitteeMemberCredential, DelegateRepresentativeCredential,
};
use crate::primitives::{
    AdaValue, Anchor, DigestBlake2b224, DigestBlake2b256, Epoch, Ratio, RewardAccount,
    StakeCredential, StakePoolId, VrfVerificationKey,
};

verus! {

/// A certificate carried by a transaction.
#[derive(Debug, Clone, PartialEq, Eq)]
pub enum Certificate {
    /// Stake credential registration.
    StakeCredentialRegistration { credential: StakeCredential, deposit: Option<AdaValue> },
    /// Stake credential deregistration.
    StakeCredentialDeregistration { credential: StakeCredential, deposit: Option<AdaValue> },
    /// Stake delegation.
    StakeDelegation { credential: StakeCredential, stake_pool: StakePoolId },
    /// Stake pool registration.
    StakePoolRegistration { stake_pool: StakePool },
    /// Stake pool retirement.
    StakePoolRetirement { stake_pool: StakePoolId, retirement_epoch: Epoch },
    /// Genesis key delegation.
    GenesisDelegation {
        issuer: DigestBlake2b224,
        delegate: DigestBlake2b224,
        vrf: VrfVerificationKey,
    },
    /// Delegate representative registration.
    DelegateRepresentativeRegistration {
        delegate_representative: DelegateRepresentativeCredential,
        deposit: AdaValue,
        metadata: Option<Anchor>,
    },
    /// Delegate representative update.
    DelegateRepresentativeUpdate {
        delegate_representative: DelegateRepresentativeCredential,
        metadata: Option<Anchor>,
    },
    /// Delegate representative retirement.
    DelegateRepresentativeRetirement {
        delegate_representative: DelegateRepresentativeCredential,
        deposit: AdaValue,
    },
    /// Vote delegation.
    VoteDelegation { credential: StakeCredential, delegate_representative: Delegatee },
    /// Stake and vote delegation.
    StakeAndVoteDelegation {
        credential: StakeCredential,
        stake_pool: StakePoolId,
        delegate_representative: Delegatee,
    },
    /// Stake registration and delegation.
    StakeCredentialRegistrationAndDelegation {
        credential: StakeCredential,
        stake_pool: StakePoolId,
        deposit: AdaValue,
    },
    /// Vote registration and delegation.
    StakeCredentialRegistrationAndVoteDelegation {
        credential: StakeCredential,
        delegate_representative: Delegatee,
        deposit: AdaValue,
    },
    /// Stake registration and both delegations.
    StakeCredentialRegistrationAndBothDelegations {
        credential: StakeCredential,
        stake_pool: StakePoolId,
        delegate_representative: Delegatee,
        deposit: AdaValue,
    },
    /// Constitutional committee hot key registration.
    ConstitutionalCommitteeHotKeyRegistration {
        member: ConstitutionalCommitteeMemberCredential,
        hot_key: ConstitutionalCommitteeMemberCredential,
    },
    /// Constitutional committee member resignation.
    ConstitutionalCommitteeMemberResignation {
        member: ConstitutionalCommitteeMemberCredential,
        metadata: Option<Anchor>,
    },
}

/// Delegatee for vote delegation.
#[derive(Debug, Clone, PartialEq, Eq)]
pub enum Delegatee {
    /// Delegate to a specific representative.
    DRep(DelegateRepresentativeCredential),
    /// Delegate to always abstain.
    Abstain(String),
    /// Delegate to always vote no confidence.
    NoConfidence(String),
}

/// Stake pool registration parameters.
#[derive(Debug, Clone, PartialEq, Eq)]
pub struct StakePool {
    /// Pool identifier.
    pub id: StakePoolId,
    /// VRF key hash.
    pub vrf: VrfVerificationKey,
    /// Pledge amount.
    pub pledge: AdaValue,
    /// Pool cost.
    pub cost: AdaValue,
    /// Pool margin (fee ratio).
    pub margin: Ratio,
    /// Reward account.
    pub reward_account: RewardAccount,
    /// Pool owners.
    pub owners: Vec<DigestBlake2b224>,
    /// Pool relays.
    pub relays: Vec<Relay>,
    /// Pool metadata.
    pub metadata: Option<PoolMetadata>,
}

/// Pool relay configuration.
#[derive(Debug, Clone, PartialEq, Eq)]
pub enum Relay {
    /// Address relay.
    IpAddress { ipv4: Option<String>, ipv6: Option<String>, port: Option<u16> },
    /// Hostname relay.
    Hostname { hostname: String, port: Option<u16> },
    /// Name-record relay.
    DnsA { hostname: String },
}

/// Pool metadata reference.
#[derive(Debug, Clone, PartialEq, Eq)]
pub struct PoolMetadata {
    /// Metadata location.
    pub url: String,
    /// Metadata hash.
    pub hash: DigestBlake2b256,
}

/// Stake pool view for queries.
#[derive(Debug, Clone, PartialEq, Eq)]
pub struct StakePoolView {
    /// Pool identifier.
    pub id: StakePoolId,
    /// Pool parameters.
    pub parameters: StakePool,
    /// Pool status.
    pub status: Option<StakePoolStatus>,
    /// Live stake, where requested.
    pub stake: Option<AdaValue>,
}

/// Stake pool status.
#[derive(Debug, Clone, Copy, PartialEq, Eq, Structural)]
pub enum StakePoolStatus {
    Active,
    Retiring,
    Retired,
}

} // verus!
