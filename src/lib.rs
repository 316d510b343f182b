//! Composite transactions for a proof-settled ledger: building linked blob
//! sequences, checking them speculatively against chained contract states,
//! driving per-blob proof generation, and tracking settlement block by block.
pub mod blob;
pub mod builder;
pub mod state;
pub mod speculative;
pub mod proving;
pub mod tracker;
pub mod replay;
pub mod app_module;
