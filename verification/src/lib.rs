//! Availability oracle for curated subgraph deployments.
//!
//! The library decides; the program around it fetches, signs and waits. Each
//! deployment's manifest and the files it links are checked for availability
//! and form, the verdicts are compared with the deny bits currently on chain,
//! and the entries that changed are handed to the state manager.

pub mod block_strings;
pub mod check;
pub mod cid;
pub mod cycle;
pub mod lexical;
pub mod manifest;
pub mod metrics;
pub mod parsers;
pub mod reconcile;
pub mod scheduler;
pub mod state_manager;
pub mod type_names;
pub mod validator;
pub mod validity;
