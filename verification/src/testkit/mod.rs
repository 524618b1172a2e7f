//! Engine-agnostic contract checks for adapters.
pub mod contract;
pub mod testenv;
