//! Error taxonomy of the client: transport, protocol, application and usage
//! failures.

use vstd::prelude::*;
use crate::primitives::Tip;

verus! {

/// Main error type of the client.
#[derive(Debug, Clone, PartialEq, Eq)]
pub enum OgmiosError {
    /// WebSocket connection error.
    WebSocket(String),
    /// HTTP handshake error.
    HttpHandshake(String),
    /// Malformed or unexpected wire text.
    Json(String),
    /// Connection closed unexpectedly.
    ConnectionClosed,
    /// Socket not open.
    SocketNotOpen { state: String },
    /// Invalid response from the server.
    InvalidResponse { message: String },
    /// Request timed out.
    Timeout { timeout_ms: u64 },
    /// Intersection not found during chain synchronization; carries the tip
    /// the remote reported at resolution time.
    IntersectionNotFound { tip: Option<Tip> },
    /// Transaction submission failed.
    SubmissionError(String),
    /// Transaction evaluation failed.
    EvaluationError(String),
    /// Ledger state acquisition failed.
    AcquisitionError(String),
    /// Query failed.
    QueryError(String),
    /// Channel send failed.
    ChannelSend(String),
    /// Channel receiver dropped.
    ChannelRecv,
}

/// Result type of the client's operations.
pub type OgmiosResult<T> = Result<T, OgmiosError>;

} // verus!
