//! Streaming UTXO spend aggregator.
//!
//! The library consumes an ordered sequence of blockchain blocks and keeps a
//! live set of unspent transaction outputs. For every output that is later
//! consumed it derives the spend height, the coin age, the paying
//! transaction's fee rate and the spent value, and emits one log line per
//! spend. A lifecycle controller owns the set and the running counters; file
//! handling around it is left to the caller.

pub mod block;
pub mod store;
pub mod fees;
pub mod lines;
pub mod steps;
pub mod dump;
pub mod logger;
