//! State transitions of a registry of non-fungible assets that are grouped
//! in collections, as run by a ledger that keeps every record in an account.

pub mod error;
pub mod pubkey;
pub mod codec;
pub mod state;
pub mod instruction;
pub mod account;
pub mod processor;
pub mod laws;

pub use crate::processor::process_instruction;
