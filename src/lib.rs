//! An in-memory index of tradable instruments, keyed by ticker and exchange,
//! with exact lookup, eligibility checks and exchange / market filters.

pub mod batch;
pub mod index;
pub mod market;
pub mod record;
mod text;
