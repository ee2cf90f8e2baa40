//! Validation and processing of transactions.

pub mod laws;
pub mod processor;
pub mod validator;
