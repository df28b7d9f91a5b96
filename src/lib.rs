//! Proof-of-work nonce search over a truncated, single-chunk BLAKE3 compression.
pub mod check_nibble;
pub mod compress;
pub mod mask;
pub mod message;
pub mod solver;
pub mod task;
