//! Arithmetic-circuit core of a zk-rollup batch prover.
//!
//! The library evaluates, over concrete witness values, the claim that a
//! block circuit enforces: given a prior account-tree root, an ordered batch
//! of transactions with audit paths, and a declared public commitment, there
//! is a valid, authorized, time-valid state transition whose hash-chained
//! public data equals the commitment.

pub mod circuit;
pub mod commit;
pub mod curve;
pub mod encode;
pub mod field;
pub mod hash;
pub mod merkle;
pub mod sig;
