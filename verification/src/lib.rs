//! Record-management core of an append-only introduction ledger.
//!
//! Actors publish one introduction each, may replace its message, and reply to
//! the introductions of others. Every record lies in a slot whose address is
//! derived from seeds; every operation derives these addresses again and holds
//! the references it is handed against them before it writes anything.

pub mod account;
pub mod address;
pub mod error;
pub mod instruction;
pub mod laws;
pub mod processor;
pub mod state;
pub mod token;
pub mod validation;
pub mod wire;
