//! Block types, and the compact view of a block that the chain-synchronization
//! engine reads.

use vstd::prelude::*;
use crate::primitives::{
    plain_str, BlockHeight, DigestBlake2b256, KesVerificationKey, NumberOfBytes, Slot,
    VerificationKey, VerificationKeyHash, VrfVerificationKey,
};

verus! {

/// The consensus flavour of a block.
#[derive(Debug, Clone, Copy, PartialEq, Eq, Structural)]
pub enum BlockKind {
    /// Epoch boundary block (Byron era).
    Ebb,
    /// BFT block (Byron era).
    Bft,
    /// Praos block (Shelley era and later).
    Praos,
}

/// Mathematical value of a block: its flavour and the header fields the
/// protocol logic reads.
pub struct BlockV {
    pub kind: BlockKind,
    pub era: Seq<char>,
    pub id: Seq<char>,
    pub ancestor: Seq<char>,
    pub slot: u64,
    pub height: u64,
}

impl BlockV {
    /// The text fields of a block are fit for the wire.
    pub open spec fn wf(self) -> bool {
        plain_str(self.era) && plain_str(self.id) && plain_str(self.ancestor)
    }
}

/// Epoch boundary block (Byron era).
#[derive(Debug, Clone, PartialEq, Eq)]
pub struct BlockEBB {
    /// Block type identifier.
    pub block_type: String,
    /// Era (always the first era for an epoch boundary block).
    pub era: String,
    /// Block identifier (hash).
    pub id: DigestBlake2b256,
    /// Ancestor block identifier.
    pub ancestor: DigestBlake2b256,
    /// Slot number.
    pub slot: Slot,
    /// Block height.
    pub height: BlockHeight,
}

/// BFT block (Byron era).
#[derive(Debug, Clone, PartialEq, Eq)]
pub struct BlockBFT {
    /// Block type identifier.
    pub block_type: String,
    /// Era name.
    pub era: String,
    /// Block identifier (hash).
    pub id: DigestBlake2b256,
    /// Ancestor block identifier.
    pub ancestor: DigestBlake2b256,
    /// Slot number.
    pub slot: Slot,
    /// Block height.
    pub height: BlockHeight,
}

/// Praos block (Shelley era and later).
#[derive(Debug, Clone, PartialEq, Eq)]
pub struct BlockPraos {
    /// Block type identifier.
    pub block_type: String,
    /// Era name.
    pub era: String,
    /// Block identifier (hash).
    pub id: DigestBlake2b256,
    /// Ancestor block identifier.
    pub ancestor: DigestBlake2b256,
    /// Slot number.
    pub slot: Slot,
    /// Block height.
    pub height: BlockHeight,
}

/// A block of the chain: epoch boundary, BFT, or Praos.
#[derive(Debug, Clone, PartialEq, Eq)]
pub enum Block {
    /// Epoch boundary block (Byron era).
    EBB(BlockEBB),
    /// BFT block (Byron era).
    BFT(BlockBFT),
    /// Praos block (Shelley era and later).
    Praos(BlockPraos),
}

impl View for Block {
    type V = BlockV;

    open spec fn view(&self) -> BlockV {
        match self {
            Block::EBB(b) => BlockV {
                kind: BlockKind::Ebb,
                era: b.era@,
                id: b.id@,
                ancestor: b.ancestor@,
                slot: b.slot,
                height: b.height,
            },
            Block::BFT(b) => BlockV {
                kind: BlockKind::Bft,
                era: b.era@,
                id: b.id@,
                ancestor: b.ancestor@,
                slot: b.slot,
                height: b.height,
            },
            Block::Praos(b) => BlockV {
                kind: BlockKind::Praos,
                era: b.era@,
                id: b.id@,
                ancestor: b.ancestor@,
                slot: b.slot,
                height: b.height,
            },
        }
    }
}

impl Block {
    /// Get the block's slot number.
    pub fn slot(&self) -> (r: Slot)
        ensures
            r == self@.slot,
    {
        match self {
            Block::EBB(b) => b.slot,
            Block::BFT(b) => b.slot,
            Block::Praos(b) => b.slot,
        }
    }

    /// Get the block's identifier (hash).
    pub fn id(&self) -> (r: &str)
        ensures
            r@ == self@.id,
    {
        match self {
            Block::EBB(b) => b.id.as_str(),
            Block::BFT(b) => b.id.as_str(),
            Block::Praos(b) => b.id.as_str(),
        }
    }

    /// Get the block's height.
    pub fn height(&self) -> (r: BlockHeight)
        ensures
            r == self@.height,
    {
        match self {
            Block::EBB(b) => b.height,
            Block::BFT(b) => b.height,
            Block::Praos(b) => b.height,
        }
    }

    /// Get the ancestor block identifier.
    pub fn ancestor(&self) -> (r: &str)
        ensures
            r@ == self@.ancestor,
    {
        match self {
            Block::EBB(b) => b.ancestor.as_str(),
            Block::BFT(b) => b.ancestor.as_str(),
            Block::Praos(b) => b.ancestor.as_str(),
        }
    }

    /// Check if this is an epoch boundary block.
    pub fn is_ebb(&self) -> (r: bool)
        ensures
            r == (self@.kind == BlockKind::Ebb),
    {
        match self {
            Block::EBB(_) => true,
            _ => false,
        }
    }

    /// Check if this is a BFT block.
    pub fn is_bft(&self) -> (r: bool)
        ensures
            r == (self@.kind == BlockKind::Bft),
    {
        match self {
            Block::BFT(_) => true,
            _ => false,
        }
    }

    /// Check if this is a Praos block.
    pub fn is_praos(&self) -> (r: bool)
        ensures
            r == (self@.kind == BlockKind::Praos),
    {
        match self {
            Block::Praos(_) => true,
            _ => false,
        }
    }
}

/// Block size information.
#[derive(Debug, Clone, PartialEq, Eq)]
pub struct BlockSize {
    /// Size in bytes.
    pub bytes: NumberOfBytes,
}

/// Software version information.
#[derive(Debug, Clone, PartialEq, Eq)]
pub struct SoftwareVersion {
    /// Application name.
    pub app_name: String,
    /// Version number.
    pub number: u32,
}

/// Protocol version for Praos blocks.
#[derive(Debug, Clone, PartialEq, Eq)]
pub struct ProtocolVersionPraos {
    /// Major version.
    pub major: u32,
    /// Minor version.
    pub minor: u32,
    /// Patch version (optional).
    pub patch: Option<u32>,
}

/// Block issuer for Byron blocks.
#[derive(Debug, Clone, PartialEq, Eq)]
pub struct BlockIssuerByron {
    /// Verification key.
    pub verification_key: VerificationKey,
}

/// Block issuer for Praos blocks.
#[derive(Debug, Clone, PartialEq, Eq)]
pub struct BlockIssuerPraos {
    /// Verification key hash (pool identifier).
    pub verification_key: VerificationKeyHash,
    /// VRF verification key.
    pub vrf_verification_key: VrfVerificationKey,
    /// Leader value (VRF output).
    pub leader_value: Option<CertifiedVrf>,
    /// Operational certificate.
    pub operational_certificate: Option<OperationalCertificate>,
}

/// VRF certified output.
#[derive(Debug, Clone, PartialEq, Eq)]
pub struct CertifiedVrf {
    /// VRF output.
    pub output: String,
    /// VRF proof.
    pub proof_value: String,
}

/// Operational certificate for block production.
#[derive(Debug, Clone, PartialEq, Eq)]
pub struct OperationalCertificate {
    /// KES verification key.
    pub kes_verification_key: KesVerificationKey,
    /// Counter.
    pub count: u64,
    /// KES period.
    pub kes_period: Option<u64>,
    /// Issue number.
    pub issue_number: Option<u64>,
}

} // verus!
