//! Proof-of-work mining core: identity codec, Keccak-based circuit derivation,
//! the NAND-circuit scoring kernel and the solution packet builder.

pub mod converters;
pub mod math;
pub mod miner;
pub mod network;
pub mod types;
