//! A small replicated ledger of vehicle registrations and arithmetic
//! contracts: the block model and its hashing rule, the wire layout of the
//! payloads, proof-of-work mining, the chain rules and the contract evaluator.

pub mod chain;
pub mod contract;
pub mod datatypes;
pub mod error;
pub mod handlers;
pub mod hashing;
pub mod laws;
pub mod miner;
pub mod networking;
pub mod node;
pub mod wire;

pub use crate::datatypes::{Block, BlockData, Car, Comm, Msg, RevPolish, HASH_LEN};
pub use crate::miner::mint_block;
pub use crate::node::handle_msg;
