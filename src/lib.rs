//! Coordinator of distributed key generation for threshold credential issuance: the epoch
//! state machine, the dealer registry, the dealing ledger, complaint and mismatch voting,
//! and the decision policy of a participating node.

pub mod agent;
pub mod coordinator;
pub mod dealing;
pub mod dispute;
pub mod epoch;
pub mod error;
pub mod event;
pub mod mix_fetch;
pub mod registry;
