//! Transaction encoding and proof-preparation core of a layer-2 payment rollup.

pub mod bytes;
pub mod commitment;
pub mod hasher;
pub mod operations;
pub mod packing;
pub mod params;
pub mod prover;
pub mod tree;
pub mod tx;
pub mod withdrawals;
