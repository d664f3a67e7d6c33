//! Typed results of the protocol's requests.

use vstd::prelude::*;
use crate::block::{Block, BlockV};
use crate::primitives::{Point, PointV, Slot, Tip, TipV, TransactionId};

verus! {

/// Mathematical value of a chain-synchronization event.
pub enum NextBlockV {
    /// Forward direction: a new block extends the chain.
    Forward { block: BlockV, tip: TipV },
    /// Backward direction: the chain rolls back to an earlier point.
    Backward { point: PointV, tip: TipV },
}

impl NextBlockV {
    /// The event's fields are fit for the wire.
    pub open spec fn wf(self) -> bool {
        match self {
            NextBlockV::Forward { block, tip } => block.wf() && tip.wf(),
            NextBlockV::Backward { point, tip } => point.wf() && tip.wf(),
        }
    }
}

/// Chain-synchronization event: exactly one of a roll forward carrying a new
/// block or a roll backward carrying the point rolled back to, each with the
/// remote tip observed at that moment.
#[derive(Debug, Clone, PartialEq, Eq)]
pub enum NextBlockResponse {
    /// Forward direction: new block.
    Forward { block: Block, tip: Tip },
    /// Backward direction: rollback.
    Backward { point: Point, tip: Tip },
}

impl View for NextBlockResponse {
    type V = NextBlockV;

    open spec fn view(&self) -> NextBlockV {
        match self {
            NextBlockResponse::Forward { block, tip } => NextBlockV::Forward {
                block: block@,
                tip: tip@,
            },
            NextBlockResponse::Backward { point, tip } => NextBlockV::Backward {
                point: point@,
                tip: tip@,
            },
        }
    }
}

/// Result of resolving an intersection: the common point where the remote
/// found one, and the remote tip either way.
#[derive(Debug, Clone, PartialEq, Eq)]
pub struct FindIntersectionResponse {
    /// The intersection point found, absent where none exists.
    pub intersection: Option<Point>,
    /// Current remote tip.
    pub tip: Tip,
}

/// Acquire ledger state response.
#[derive(Debug, Clone, PartialEq, Eq)]
pub struct AcquireLedgerStateResponse {
    /// Acquired marker.
    pub acquired: String,
    /// Slot number.
    pub slot: Slot,
}

/// Acquire mempool response.
#[derive(Debug, Clone, PartialEq, Eq)]
pub struct AcquireMempoolResponse {
    /// Acquired marker.
    pub acquired: String,
    /// Slot number.
    pub slot: Slot,
}

/// Submit transaction response.
#[derive(Debug, Clone, PartialEq, Eq)]
pub struct SubmitTransactionResponse {
    /// Transaction identifier wrapper.
    pub transaction: TransactionIdWrapper,
}

/// Transaction identifier wrapper.
#[derive(Debug, Clone, PartialEq, Eq)]
pub struct TransactionIdWrapper {
    /// Transaction identifier.
    pub id: TransactionId,
}

/// Has transaction response.
#[derive(Debug, Clone, PartialEq, Eq)]
pub struct HasTransactionResponse {
    /// Whether the transaction is in the mempool.
    pub has_transaction: bool,
}

} // verus!
