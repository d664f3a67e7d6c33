//! Primitive protocol values: chain positions, tips, amounts.

use vstd::prelude::*;
use vstd::string::StringExecFns;

verus! {

/// A 64-bit unsigned integer slot number.
pub type Slot = u64;

/// A 64-bit unsigned integer epoch number.
pub type Epoch = u64;

/// Block height as a 64-bit unsigned integer.
pub type BlockHeight = u64;

/// A lovelace amount (1 ada = 1,000,000 lovelace).
pub type Lovelace = u64;

/// A signed lovelace delta for value changes.
pub type LovelaceDelta = i128;

/// Transaction identifier as a hex-encoded string.
pub type TransactionId = String;

/// Policy identifier as a hex-encoded string.
pub type PolicyId = String;

/// Asset name as a hex-encoded string.
pub type AssetName = String;

/// Asset quantity (can be negative for burning).
pub type AssetQuantity = i128;

/// Script hash as a hex-encoded string.
pub type ScriptHash = String;

/// Datum hash as a hex-encoded string.
pub type DatumHash = String;

/// Stake pool identifier.
pub type StakePoolId = String;

/// Verification key hash.
pub type VerificationKeyHash = String;

/// Blake2b-224 digest (56 hex characters).
pub type DigestBlake2b224 = String;

/// Blake2b-256 digest (64 hex characters).
pub type DigestBlake2b256 = String;

/// Network magic number.
pub type NetworkMagic = u32;

/// UTC time as an ISO 8601 string.
pub type UtcTime = String;

/// Number of bytes.
pub type NumberOfBytes = u64;

/// A Cardano address (Bech32 or Base58 encoded).
pub type Address = String;

/// A stake address (Bech32 encoded).
pub type StakeAddress = String;

/// A reward account (same as stake address).
pub type RewardAccount = String;

/// A verification key (hex-encoded).
pub type VerificationKey = String;

/// A KES verification key.
pub type KesVerificationKey = String;

/// A VRF verification key.
pub type VrfVerificationKey = String;

/// A signature (hex-encoded).
pub type Signature = String;

/// A string has no double-quote character, so it can stand verbatim between
/// quotes in the canonical wire encoding.
pub open spec fn plain_str(s: Seq<char>) -> bool {
    forall|i: int| 0 <= i < s.len() ==> s[i] != '"'
}

/// The origin marker of the blockchain.
#[derive(Debug, Clone, Copy, PartialEq, Eq, Default)]
pub struct Origin;

impl Origin {
    /// The wire spelling of the origin marker.
    pub const ORIGIN: &'static str = "origin";
}

/// Mathematical value of a `Point`: the origin marker or a slot paired with a
/// block identifier.
pub enum PointV {
    Origin,
    At { slot: u64, id: Seq<char> },
}

impl PointV {
    /// A non-origin point carries a block identifier fit for the wire.
    pub open spec fn wf(self) -> bool {
        match self {
            PointV::Origin => true,
            PointV::At { slot, id } => plain_str(id),
        }
    }
}

/// A point on the blockchain, either origin or a specific slot/hash.
#[derive(Debug, Clone, PartialEq, Eq)]
pub enum Point {
    /// The origin point.
    Origin(String),
    /// A specific point with slot and block identifier.
    Point { slot: Slot, id: DigestBlake2b256 },
}

impl View for Point {
    type V = PointV;

    open spec fn view(&self) -> PointV {
        match self {
            Point::Origin(_) => PointV::Origin,
            Point::Point { slot, id } => PointV::At { slot: *slot, id: id@ },
        }
    }
}

impl Point {
    /// Create an origin point.
    pub fn origin() -> (r: Self)
        ensures
            r@ == PointV::Origin,
    {
        Point::Origin(String::from_str("origin"))
    }

    /// Create a point at a specific slot and block identifier.
    pub fn at(slot: Slot, id: &str) -> (r: Self)
        ensures
            r@ == (PointV::At { slot, id: id@ }),
    {
        Point::Point { slot, id: id.to_owned() }
    }
}

/// Mathematical value of a `Tip`: the origin marker or the remote head's
/// slot, block identifier and height.
pub enum TipV {
    Origin,
    At { slot: u64, id: Seq<char>, height: u64 },
}

impl TipV {
    /// A non-origin tip carries a block identifier fit for the wire.
    pub open spec fn wf(self) -> bool {
        match self {
            TipV::Origin => true,
            TipV::At { slot, id, height } => plain_str(id),
        }
    }
}

/// The tip of the blockchain: the remote's current head, or origin for an
/// empty chain.
#[derive(Debug, Clone, PartialEq, Eq)]
pub enum Tip {
    /// The origin (empty chain).
    Origin(String),
    /// A specific tip with slot, identifier, and height.
    Tip { slot: Slot, id: DigestBlake2b256, height: BlockHeight },
}

impl View for Tip {
    type V = TipV;

    open spec fn view(&self) -> TipV {
        match self {
            Tip::Origin(_) => TipV::Origin,
            Tip::Tip { slot, id, height } => TipV::At {
                slot: *slot,
                id: id@,
                height: *height,
            },
        }
    }
}

impl Tip {
    /// Create an origin tip.
    pub fn origin() -> (r: Self)
        ensures
            r@ == TipV::Origin,
    {
        Tip::Origin(String::from_str("origin"))
    }

    /// Create a tip at a specific slot, block identifier and height.
    pub fn at(slot: Slot, id: &str, height: BlockHeight) -> (r: Self)
        ensures
            r@ == (TipV::At { slot, id: id@, height }),
    {
        Tip::Tip { slot, id: id.to_owned(), height }
    }
}

/// A rational number represented as numerator and denominator.
#[derive(Debug, Clone, PartialEq, Eq)]
pub struct Ratio {
    pub numerator: u64,
    pub denominator: u64,
}

impl Ratio {
    /// Create a ratio from numerator and denominator.
    pub fn new(numerator: u64, denominator: u64) -> (r: Self)
        ensures
            r.numerator == numerator,
            r.denominator == denominator,
    {
        Self { numerator, denominator }
    }
}

/// Ada value container.
#[derive(Debug, Clone, PartialEq, Eq)]
pub struct AdaValue {
    pub lovelace: Lovelace,
}

/// One asset of a policy with its quantity.
#[derive(Debug, Clone, PartialEq, Eq)]
pub struct AssetEntry {
    /// Asset name (hex-encoded).
    pub name: AssetName,
    /// Quantity of the asset.
    pub quantity: AssetQuantity,
}

/// The assets minted under one policy, as a list of name/quantity pairs.
#[derive(Debug, Clone, PartialEq, Eq)]
pub struct PolicyAssets {
    /// Policy identifier.
    pub policy: PolicyId,
    /// Assets under the policy.
    pub assets: Vec<AssetEntry>,
}

/// Multi-asset bundle: per-policy lists of name/quantity pairs, in insertion
/// order with no repeated policy expected by producers.
pub type Assets = Vec<PolicyAssets>;

/// Value containing ada and optional multi-assets.
#[derive(Debug, Clone, PartialEq, Eq)]
pub enum Value {
    /// Ada only value.
    AdaOnly { ada: AdaValue },
    /// Value with ada and other assets.
    WithAssets { ada: AdaValue, assets: Assets },
}

impl Value {
    /// Create an ada-only value.
    pub fn ada_only(lovelace: Lovelace) -> (r: Self)
        ensures
            r == (Value::AdaOnly { ada: AdaValue { lovelace } }),
    {
        Value::AdaOnly { ada: AdaValue { lovelace } }
    }

    /// Get the lovelace amount.
    pub fn lovelace(&self) -> (r: Lovelace)
        ensures
            r == self.spec_lovelace(),
    {
        match self {
            Value::AdaOnly { ada } => ada.lovelace,
            Value::WithAssets { ada, .. } => ada.lovelace,
        }
    }

    /// The lovelace amount held by a value.
    pub open spec fn spec_lovelace(&self) -> Lovelace {
        match self {
            Value::AdaOnly { ada } => ada.lovelace,
            Value::WithAssets { ada, assets } => ada.lovelace,
        }
    }
}

/// Nonce for protocol parameters.
#[derive(Debug, Clone, PartialEq, Eq)]
pub enum Nonce {
    /// Neutral nonce.
    Neutral,
    /// Specific nonce value.
    Value(String),
}

/// Metadata value that can be various shapes.
#[derive(Debug, PartialEq, Eq)]
pub enum Metadatum {
    /// Integer value.
    Int(i128),
    /// Byte string (hex-encoded).
    Bytes(String),
    /// Text string.
    Text(String),
    /// List of metadatums.
    List(Vec<Metadatum>),
    /// Map of metadatums, as a list of key/value entries.
    Pairs(Vec<MetadatumMapEntry>),
}

/// A key-value entry in a metadatum map.
#[derive(Debug, PartialEq, Eq)]
pub struct MetadatumMapEntry {
    pub k: Metadatum,
    pub v: Metadatum,
}

/// Metadata labels, as a list of label/value pairs in insertion order.
pub type MetadataLabels = Vec<(String, Metadatum)>;

/// Anchor for governance actions.
#[derive(Debug, Clone, PartialEq, Eq)]
pub struct Anchor {
    pub url: String,
    pub content_hash: DigestBlake2b256,
}

/// Credential origin: either from a key or a script.
#[derive(Debug, Clone, Copy, PartialEq, Eq)]
pub enum CredentialOrigin {
    Key,
    Script,
}

/// A stake credential.
#[derive(Debug, Clone, PartialEq, Eq)]
pub enum StakeCredential {
    /// Key-based credential.
    Key { key: DigestBlake2b224 },
    /// Script-based credential.
    Script { script: ScriptHash },
}

/// A payment credential.
pub type PaymentCredential = StakeCredential;

/// Nullable value wrapper, distinguishing an explicit null from a value.
#[derive(Debug, Clone, PartialEq, Eq)]
pub enum Nullable<T> {
    Null,
    Value(T),
}

impl<T> Nullable<T> {
    /// Whether the wrapper holds no value.
    pub fn is_null(&self) -> (r: bool)
        ensures
            r == (self is Null),
    {
        match self {
            Nullable::Null => true,
            Nullable::Value(_) => false,
        }
    }

    /// Turn the wrapper into an `Option`.
    pub fn into_option(self) -> (r: Option<T>)
        ensures
            match self {
                Nullable::Null => r is None,
                Nullable::Value(v) => r == Some(v),
            },
    {
        match self {
            Nullable::Null => None,
            Nullable::Value(v) => Some(v),
        }
    }

    /// Build the wrapper from an `Option`.
    pub fn from_option(opt: Option<T>) -> (r: Self)
        ensures
            match opt {
                Option::None => r is Null,
                Option::Some(v) => r == Nullable::Value(v),
            },
    {
        match opt {
            Option::Some(v) => Nullable::Value(v),
            Option::None => Nullable::Null,
        }
    }
}

} // verus!
