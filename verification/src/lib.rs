//! An in-memory account ledger: a registry of balances keyed by address, and
//! the operations that open accounts and move funds between them.

pub mod decimal;
pub mod laws;
pub mod message;
pub mod registry;
pub mod rules;
pub mod service;
