//! A payment engine that keeps client accounts and a ledger of deposits and
//! withdrawals, and that handles disputes, resolutions and chargebacks on them.

pub mod aggregator;
pub mod amount;
pub mod engine;
pub mod error;
pub mod io;
pub mod model;
pub mod repository;
pub mod types;
