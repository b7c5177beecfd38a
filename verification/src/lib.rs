//! Fungible assets held per shard, with a verified state-transition model of
//! issuing, transferring, destroying and relaying asset units.

pub mod assets;
pub mod encoding;
pub mod ledger;
pub mod model;
pub mod types;
pub mod laws;
pub mod holdings;
