//! What the engine did, counted.

pub mod event;
pub mod metrics;
