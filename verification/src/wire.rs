//! The byte layout of payloads, which is also the input of block hashing:
//! little-endian fixed-width integers, a 64-bit length before each string and
//! sequence, a 32-bit tag before each variant, hashes verbatim.
//!
//! Each layout is stated twice in ghost code, once as the bytes of a value
//! (`enc_*`) and once as the reading of bytes from a position (`dec_*`); the
//! executable functions are proved against these, and the two are proved
//! inverse to each other.

pub mod decode;
pub mod encode;
pub mod laws;
pub mod layout;

pub use crate::wire::decode::{decode_block, decode_block_data, decode_chain, decode_numbers};
pub use crate::wire::encode::{encode_block, encode_block_data, encode_chain, encode_numbers};
pub use crate::wire::layout::{
    block_fits, chain_fits, data_fits, dec_block, dec_block_data, dec_chain, dec_numbers,
    enc_be32, enc_block, enc_block_data, enc_chain, enc_numbers, enc_string,
};
