//! Script and datum types.

use vstd::prelude::*;
use crate::primitives::{
    DigestBlake2b224, PolicyId, RewardAccount, ScriptHash, Slot, TransactionId,
};

verus! {

/// A script: native or one of the Plutus versions.
#[derive(Debug, PartialEq, Eq)]
pub enum Script {
    /// Native script (multi-signature, timelocks).
    Native { script: NativeScript, cbor: Option<String> },
    /// Plutus V1 script.
    PlutusV1 { cbor: String },
    /// Plutus V2 script.
    PlutusV2 { cbor: String },
    /// Plutus V3 script.
    PlutusV3 { cbor: String },
}

/// Native script clauses.
#[derive(Debug, PartialEq, Eq)]
pub enum NativeScript {
    /// Signature required.
    Signature { from: DigestBlake2b224 },
    /// All sub-scripts must validate.
    All { from: Vec<NativeScript> },
    /// Any sub-script must validate.
    Any { from: Vec<NativeScript> },
    /// At least the given number of sub-scripts must validate.
    SomeOf { at_least: u32, from: Vec<NativeScript> },
    /// Valid after the slot.
    After { slot: Slot },
    /// Valid before the slot.
    Before { slot: Slot },
}

/// Plutus language versions.
#[derive(Debug, Clone, Copy, PartialEq, Eq, Structural)]
pub enum Language {
    PlutusV1,
    PlutusV2,
    PlutusV3,
}

/// The wire spelling of a language name.
pub open spec fn language_str(l: Language) -> Seq<char> {
    match l {
        Language::PlutusV1 => "plutus:v1"@,
        Language::PlutusV2 => "plutus:v2"@,
        Language::PlutusV3 => "plutus:v3"@,
    }
}

impl Language {
    /// Get the language as a string.
    pub fn as_str(&self) -> (r: &'static str)
        ensures
            r@ == language_str(*self),
    {
        match self {
            Language::PlutusV1 => "plutus:v1",
            Language::PlutusV2 => "plutus:v2",
            Language::PlutusV3 => "plutus:v3",
        }
    }
}

/// Datum: inline wire text, or a parsed value carried as raw text.
#[derive(Debug, Clone, PartialEq, Eq)]
pub enum Datum {
    /// Hex-encoded datum.
    Cbor(String),
    /// Datum value, carried as its raw wire text.
    Value(String),
}

/// Redeemer for script execution.
#[derive(Debug, Clone, PartialEq, Eq)]
pub struct Redeemer {
    /// Script purpose.
    pub purpose: RedeemerPurpose,
    /// Redeemer data.
    pub datum: Datum,
    /// Execution budget.
    pub execution_units: crate::transaction::ExUnits,
}

/// Redeemer purpose: what the script is validating.
#[derive(Debug, Clone, PartialEq, Eq)]
pub enum RedeemerPurpose {
    /// Spending an output.
    Spend { output_reference: OutputReference },
    /// Minting tokens.
    Mint { policy: PolicyId },
    /// Publishing a certificate.
    Publish { certificate_index: u32 },
    /// Withdrawing from a reward account.
    Withdraw { reward_account: RewardAccount },
    /// Proposing a governance action.
    Propose { proposal_index: u32 },
    /// Voting, with the voter carried as raw wire text.
    Vote { voter: String },
}

/// Output reference for a redeemer.
#[derive(Debug, Clone, PartialEq, Eq)]
pub struct OutputReference {
    /// Transaction identifier.
    pub transaction_id: TransactionId,
    /// Output index.
    pub index: u32,
}

/// Script reference in an output.
#[derive(Debug, Clone, PartialEq, Eq)]
pub struct ScriptReference {
    /// Script hash.
    pub hash: ScriptHash,
    /// Script language.
    pub language: Language,
    /// Hex-encoded script (optional).
    pub cbor: Option<String>,
}

} // verus!
