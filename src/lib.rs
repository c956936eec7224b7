//! A verified engine for the lifecycle of a shielded counter resource.
//!
//! - `path`: ledger authentication paths in the proving layer's convention.
//! - `resource`: the counter resource, its value encoding and its increment.
//! - `store`: each account's record and lease.
//! - `assembler`: transition witnesses, their rules, actions, transactions.
//! - `orchestrator`: claiming, committing and releasing an account.
//! - `session`: one initialize or increment attempt as a state machine.
//! - `auth`: the checks in front of every request.

pub mod encoding;
pub mod error;
pub mod path;
pub mod resource;
pub mod store;
pub mod assembler;
pub mod orchestrator;
pub mod session;
pub mod auth;
