//! Core of a minimal blockchain node: a versioned account store, transaction
//! validation and execution, block validation with atomic commit, a chain
//! index with deterministic fork choice, and a block assembler.
//!
//! The crate verifies the state-transition logic: every public operation is
//! specified against a mathematical model of the account state (a sequence of
//! address/account pairs with unique addresses), and block application is
//! proved atomic and deterministic.

use vstd::prelude::*;

pub mod assembler;
pub mod chain;
pub mod codec;
pub mod engine;
pub mod laws;
pub mod store;
pub mod transition;
pub mod types;

verus! {

/// Gas charged for any transaction, before payload costs.
pub const BASE_GAS_COST: u64 = 11;

/// Gas charged per byte of transaction payload data.
pub const DATA_BYTE_GAS_COST: u64 = 2;

/// Largest gas limit a single transaction may declare.
pub const TX_GAS_CEILING: u64 = 1_000_000;

} // verus!
