//! A minimal sharded key-value store with a verified sequential core.
//!
//! The store partitions the key space into a fixed number of shards and
//! routes each key to its shard by a stable hash.  A per-connection handler
//! state machine decodes protocol frames into commands, applies them to the
//! store and produces response frames.  On the client side, a bounded FIFO
//! request queue models the actor that owns the single server connection and
//! services callers strictly one at a time.

pub mod client;
pub mod command;
pub mod handler;
pub mod routing;
pub mod store;
pub mod wire;

pub use routing::hash;
pub use routing::route;
