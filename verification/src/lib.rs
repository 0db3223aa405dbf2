//! A multi-chain indexer of decentralized-exchange swaps: decoding of raw
//! chain records into swap events, price derivation, idempotent storage and
//! the per-chain watcher that ties them together.

pub mod amount;
pub mod bytes;
pub mod checkpoint;
pub mod config;
pub mod decoder;
pub mod error;
pub mod model;
pub mod pipeline;
pub mod price;
pub mod schedule;
pub mod store;
pub mod supervisor;
pub mod watcher;
