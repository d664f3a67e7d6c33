//! Convenient re-exports of the library's most used items.

pub use crate::block::Block;
pub use crate::chain_sync::{
    ChainSynchronizationClientOptions, ChainSynchronizationMessageHandlers, Intersection,
    SyncEngine,
};
pub use crate::connection::{
    create_connection_object, Connection, ConnectionConfig, InteractionType,
};
pub use crate::error::{OgmiosError, OgmiosResult};
pub use crate::primitives::{
    Address, BlockHeight, Epoch, Lovelace, Point, Slot, Tip, TransactionId, Value,
};
pub use crate::transaction::Transaction;
pub use crate::transport::TransportState;
