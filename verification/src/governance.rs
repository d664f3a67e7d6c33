//! Governance types.

use vstd::prelude::*;
use crate::primitives::{
    AdaValue, Anchor, DigestBlake2b224, Epoch, Lovelace, Ratio, RewardAccount, ScriptHash,
    StakePoolId, TransactionId,
};
use crate::protocol::{PartialProtocolParameters, ProtocolVersion};

verus! {

/// Constitution.
#[derive(Debug, Clone, PartialEq, Eq)]
pub struct Constitution {
    /// Metadata anchor.
    pub metadata: Anchor,
    /// Guardian script hash (optional).
    pub guardian_script: Option<ScriptHash>,
}

/// Governance action kinds.
#[derive(Debug, Clone, PartialEq, Eq)]
pub enum GovernanceAction {
    /// Motion of no confidence.
    NoConfidence { ancestor: Option<GovernanceActionId> },
    /// Update the constitutional committee.
    ConstitutionalCommittee {
        ancestor: Option<GovernanceActionId>,
        members: ConstitutionalCommitteeMembers,
    },
    /// Update the constitution.
    Constitution { ancestor: Option<GovernanceActionId>, constitution: Constitution },
    /// Hard fork initiation.
    HardForkInitiation { ancestor: Option<GovernanceActionId>, version: ProtocolVersion },
    /// Protocol parameters update.
    ProtocolParametersUpdate {
        ancestor: Option<GovernanceActionId>,
        parameters: PartialProtocolParameters,
    },
    /// Treasury withdrawals.
    TreasuryWithdrawals { withdrawals: Vec<TreasuryWithdrawal> },
    /// Information action.
    Information,
}

/// Governance action identifier.
#[derive(Debug, Clone, PartialEq, Eq)]
pub struct GovernanceActionId {
    /// Transaction identifier.
    pub transaction: TransactionId,
    /// Action index.
    pub index: u32,
}

/// Constitutional committee members update.
#[derive(Debug, Clone, PartialEq, Eq)]
pub struct ConstitutionalCommitteeMembers {
    /// Members to add with their term limits.
    pub added: Vec<ConstitutionalCommitteeMember>,
    /// Members to remove.
    pub removed: Vec<ConstitutionalCommitteeMemberCredential>,
    /// New quorum threshold.
    pub quorum: Option<Ratio>,
}

/// A constitutional committee member.
#[derive(Debug, Clone, PartialEq, Eq)]
pub struct ConstitutionalCommitteeMember {
    /// Member credential.
    pub id: ConstitutionalCommitteeMemberCredential,
    /// Term limit (epoch).
    pub term: Epoch,
}

/// Constitutional committee member credential.
#[derive(Debug, Clone, PartialEq, Eq)]
pub enum ConstitutionalCommitteeMemberCredential {
    Key { key: DigestBlake2b224 },
    Script { script: ScriptHash },
}

/// Treasury withdrawal.
#[derive(Debug, Clone, PartialEq, Eq)]
pub struct TreasuryWithdrawal {
    /// Destination reward account.
    pub destination: RewardAccount,
    /// Amount.
    pub amount: AdaValue,
}

/// Governance proposal.
#[derive(Debug, Clone, PartialEq, Eq)]
pub struct GovernanceProposal {
    /// Proposal identifier.
    pub id: GovernanceActionId,
    /// The governance action.
    pub action: GovernanceAction,
    /// Deposit amount.
    pub deposit: AdaValue,
    /// Deposit return account.
    pub return_account: RewardAccount,
    /// Metadata anchor.
    pub metadata: Option<Anchor>,
}

/// Governance proposal state.
#[derive(Debug, Clone, PartialEq, Eq)]
pub struct GovernanceProposalState {
    /// The proposal.
    pub proposal: GovernanceProposal,
    /// The epoch the proposal was proposed in.
    pub proposed_in: Epoch,
    /// The epoch the proposal expires after.
    pub expires_after: Epoch,
    /// Votes cast on the proposal.
    pub votes: GovernanceVotes,
}

/// Votes on a governance proposal.
#[derive(Debug, Clone, PartialEq, Eq)]
pub struct GovernanceVotes {
    /// Stake pool votes.
    pub stake_pools: Vec<GovernanceVote>,
    /// Delegate representative votes.
    pub delegate_representatives: Vec<GovernanceVote>,
    /// Constitutional committee votes.
    pub constitutional_committee: Vec<GovernanceVote>,
}

/// A governance vote.
#[derive(Debug, Clone, PartialEq, Eq)]
pub struct GovernanceVote {
    /// Voter identity.
    pub voter: GovernanceVoter,
    /// The vote.
    pub vote: Vote,
    /// Optional metadata anchor.
    pub metadata: Option<Anchor>,
}

/// A governance voter.
#[derive(Debug, Clone, PartialEq, Eq)]
pub enum GovernanceVoter {
    /// Stake pool operator.
    StakePoolOperator { id: StakePoolId },
    /// Delegate representative.
    DelegateRepresentative { credential: DelegateRepresentativeCredential },
    /// Constitutional committee member.
    ConstitutionalCommittee { credential: ConstitutionalCommitteeMemberCredential },
}

/// Delegate representative credential.
#[derive(Debug, Clone, PartialEq, Eq)]
pub enum DelegateRepresentativeCredential {
    Key { id: DigestBlake2b224 },
    Script { id: ScriptHash },
}

/// Vote choice.
#[derive(Debug, Clone, Copy, PartialEq, Eq, Structural)]
pub enum Vote {
    Yes,
    No,
    Abstain,
}

/// Delegate representative information.
#[derive(Debug, Clone, PartialEq, Eq)]
pub struct DelegateRepresentative {
    /// Credential.
    pub id: DelegateRepresentativeCredential,
    /// Deposit amount.
    pub deposit: AdaValue,
    /// Status.
    pub status: DRepStatus,
    /// Metadata anchor.
    pub metadata: Option<Anchor>,
}

/// Delegate representative status.
#[derive(Debug, Clone, Copy, PartialEq, Eq, Structural)]
pub enum DRepStatus {
    Registered,
    Unregistered,
}

/// Delegate representative summary with voting power.
#[derive(Debug, Clone, PartialEq, Eq)]
pub struct DelegateRepresentativeSummary {
    /// Delegate representative information.
    pub drep: DelegateRepresentative,
    /// Voting power (stake delegated).
    pub voting_power: Lovelace,
}

} // verus!
