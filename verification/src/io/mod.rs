//! The shape of the engine's output.

pub mod sink;
