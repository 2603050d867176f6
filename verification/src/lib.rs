//! Proof-of-work block assembly and nonce search for a Bitcoin-like chain:
//! target decoding, coinbase construction, Merkle roots, header assembly and
//! the partitioned search, each with a verified contract.

pub mod error;
pub mod target;
pub mod header;
pub mod search;
pub mod merkle;
pub mod coinbase;
pub mod template;
pub mod pipeline;
