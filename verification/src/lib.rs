//! Client-side core of a JSON-RPC-over-WebSocket bridge protocol for following
//! and querying a blockchain node.
//!
//! The crate holds the protocol logic itself: the wire codec for the JSON-RPC
//! envelopes and the chain-synchronization messages, the correlation table that
//! matches asynchronous responses back to their pending callers, and the state
//! machine of the chain-synchronization loop.  Everything here is verified;
//! the sockets, timers and HTTP calls that drive it live outside the crate.

#![allow(unused_imports)]

pub mod block;
pub mod certificates;
pub mod chain_sync;
pub mod codec;
pub mod connection;
pub mod era;
pub mod error;
pub mod genesis;
pub mod governance;
pub mod jsonrpc;
pub mod ledger_state_query;
pub mod mempool_monitoring;
pub mod network;
pub mod numeral;
pub mod parse;
pub mod prelude;
pub mod primitives;
pub mod protocol;
pub mod responses;
pub mod scripts;
pub mod transaction;
pub mod transaction_submission;
pub mod transport;
pub mod util;
