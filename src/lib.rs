//! Proof-lifecycle library for the two-phase Prepare / Show credential circuits.
//!
//! The verified part covers the input adapter (JSON documents to field elements),
//! the storage layout of proving keys split into chunks, the lifecycle of a proof
//! slot, the command-line grammar and the decisions that drive each command.

pub mod bignum;
pub mod chunks;
pub mod circuits;
pub mod cli;
pub mod error;
pub mod field;
pub mod inputs;
pub mod json;
pub mod lifecycle;
pub mod plan;
pub mod report;
pub mod text;
