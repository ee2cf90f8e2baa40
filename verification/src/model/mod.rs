//! The data the engine keeps: accounts and transactions.

pub mod account;
pub mod transaction;
