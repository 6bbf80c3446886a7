//! A 16-word non-linear ROM checksum, its staged computation over the image,
//! and an exhaustive search for the two trailing words that reproduce a target.
pub mod engine;
pub mod state;
pub mod search;
pub mod sweep;
