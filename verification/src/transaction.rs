//! Transaction types.

use vstd::prelude::*;
use crate::certificates::Certificate;
use crate::primitives::{
    Address, Assets, DatumHash, DigestBlake2b224, DigestBlake2b256, Lovelace, MetadataLabels,
    RewardAccount, ScriptHash, Signature, Slot, TransactionId, Value, VerificationKey,
};
use crate::scripts::{Datum, Redeemer, Script};

verus! {

/// The default validity of a transaction whose flag is absent on the wire.
pub fn default_true() -> (r: bool)
    ensures
        r,
{
    true
}

/// A transaction.
#[derive(Debug, PartialEq, Eq)]
pub struct Transaction {
    /// Transaction identifier.
    pub id: TransactionId,
    /// Whether the transaction is valid.
    pub valid: bool,
    /// Transaction inputs.
    pub inputs: Vec<TransactionInput>,
    /// Transaction outputs.
    pub outputs: Vec<TransactionOutput>,
    /// Collateral inputs.
    pub collaterals: Vec<TransactionInput>,
    /// Collateral return output.
    pub collateral_return: Option<TransactionOutput>,
    /// Total collateral amount.
    pub total_collateral: Option<Lovelace>,
    /// Reference inputs.
    pub references: Vec<TransactionInput>,
    /// Transaction fee.
    pub fee: Option<Lovelace>,
    /// Validity interval start (slot).
    pub valid_from: Option<Slot>,
    /// Validity interval end (slot).
    pub valid_until: Option<Slot>,
    /// Certificates included in the transaction.
    pub certificates: Vec<Certificate>,
    /// Withdrawals from reward accounts, in insertion order.
    pub withdrawals: Vec<(RewardAccount, Lovelace)>,
    /// Minted or burned assets.
    pub mint: Assets,
    /// Required extra signers.
    pub required_extra_signers: Vec<DigestBlake2b224>,
    /// Required extra scripts.
    pub required_extra_scripts: Vec<ScriptHash>,
    /// Network identifier.
    pub network: Option<String>,
    /// Script integrity hash.
    pub script_integrity_hash: Option<DigestBlake2b256>,
    /// Witness set.
    pub witnesses: Option<Witnesses>,
    /// Metadata.
    pub metadata: Option<Metadata>,
    /// Hex-encoded wire form.
    pub cbor: Option<String>,
}

impl Transaction {
    /// A transaction with only its identifier set, every other part empty
    /// and the validity at its default.
    pub fn with_id(id: TransactionId) -> (r: Self)
        ensures
            r.id == id,
            r.valid,
            r.inputs@.len() == 0,
            r.outputs@.len() == 0,
    {
        Transaction {
            id,
            valid: default_true(),
            inputs: Vec::new(),
            outputs: Vec::new(),
            collaterals: Vec::new(),
            collateral_return: None,
            total_collateral: None,
            references: Vec::new(),
            fee: None,
            valid_from: None,
            valid_until: None,
            certificates: Vec::new(),
            withdrawals: Vec::new(),
            mint: Vec::new(),
            required_extra_signers: Vec::new(),
            required_extra_scripts: Vec::new(),
            network: None,
            script_integrity_hash: None,
            witnesses: None,
            metadata: None,
            cbor: None,
        }
    }
}

/// A transaction input.
#[derive(Debug, Clone, PartialEq, Eq)]
pub struct TransactionInput {
    /// The output the input spends.
    pub transaction: TransactionOutputReference,
}

/// Reference to a transaction output.
#[derive(Debug, Clone, PartialEq, Eq)]
pub struct TransactionOutputReference {
    /// Transaction identifier.
    pub id: TransactionId,
    /// Output index.
    pub index: u32,
}

impl TransactionOutputReference {
    /// Create an output reference.
    pub fn new(id: &str, index: u32) -> (r: Self)
        ensures
            r.id@ == id@,
            r.index == index,
    {
        TransactionOutputReference { id: id.to_owned(), index }
    }
}

/// A transaction output.
#[derive(Debug, PartialEq, Eq)]
pub struct TransactionOutput {
    /// Output address.
    pub address: Address,
    /// Output value.
    pub value: Value,
    /// Datum hash.
    pub datum_hash: Option<DatumHash>,
    /// Inline datum.
    pub datum: Option<Datum>,
    /// Reference script.
    pub script: Option<Script>,
}

/// An unspent output with its reference.
#[derive(Debug, PartialEq, Eq)]
pub struct Utxo {
    /// Transaction reference.
    pub transaction: TransactionOutputReference,
    /// The output.
    pub output: TransactionOutput,
}

/// Witness set of a transaction.
#[derive(Debug, PartialEq, Eq)]
pub struct Witnesses {
    /// Key witnesses.
    pub keys: Vec<KeyWitness>,
    /// Script witnesses, in insertion order.
    pub scripts: Vec<(ScriptHash, Script)>,
    /// Bootstrap witnesses.
    pub bootstrap: Vec<BootstrapWitness>,
    /// Datums, in insertion order.
    pub datums: Vec<(DatumHash, Datum)>,
    /// Redeemers.
    pub redeemers: Vec<Redeemer>,
}

/// A key witness (signature).
#[derive(Debug, Clone, PartialEq, Eq)]
pub struct KeyWitness {
    /// Verification key.
    pub key: VerificationKey,
    /// Signature.
    pub signature: Signature,
}

/// Bootstrap witness for first-era transactions.
#[derive(Debug, Clone, PartialEq, Eq)]
pub struct BootstrapWitness {
    /// Verification key.
    pub key: VerificationKey,
    /// Chain code.
    pub chain_code: String,
    /// Address attributes.
    pub address_attributes: String,
    /// Signature.
    pub signature: Signature,
}

/// Transaction metadata.
#[derive(Debug, PartialEq, Eq)]
pub struct Metadata {
    /// Metadata labels and values.
    pub labels: MetadataLabels,
    /// Hash of the metadata.
    pub hash: Option<DigestBlake2b256>,
}

/// Input source.
#[derive(Debug, Clone, Copy, PartialEq, Eq, Structural)]
pub enum InputSource {
    /// Input is from spending.
    Inputs,
    /// Input is from collateral.
    Collaterals,
}

/// Transaction evaluation result.
#[derive(Debug, Clone, PartialEq, Eq)]
pub struct EvaluationResult {
    /// Validator index.
    pub validator: ValidatorIndex,
    /// Execution budget used.
    pub budget: ExUnits,
}

/// Validator index in a transaction.
#[derive(Debug, Clone, PartialEq, Eq)]
pub struct ValidatorIndex {
    /// Purpose of the script.
    pub purpose: ScriptPurpose,
    /// Index.
    pub index: u32,
}

/// Purpose of a script execution.
#[derive(Debug, Clone, Copy, PartialEq, Eq, Structural)]
pub enum ScriptPurpose {
    /// Spending an output.
    Spend,
    /// Minting or burning tokens.
    Mint,
    /// Publishing a certificate.
    Publish,
    /// Withdrawing rewards.
    Withdraw,
    /// Proposing a governance action.
    Propose,
    /// Voting.
    Vote,
}

/// Execution units: memory and processor steps.
#[derive(Debug, Clone, Copy, PartialEq, Eq, Structural)]
pub struct ExUnits {
    /// Memory units.
    pub memory: u64,
    /// Processor steps.
    pub cpu: u64,
}

impl ExUnits {
    /// Create execution units.
    pub fn new(memory: u64, cpu: u64) -> (r: Self)
        ensures
            r.memory == memory,
            r.cpu == cpu,
    {
        ExUnits { memory, cpu }
    }
}

} // verus!
