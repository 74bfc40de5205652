//! The hashing rule of blocks and the checks that rest on it.

use crate::datatypes::{chain_view, zero_hash, Block, BlockView};
use crate::error::VerifyError;
use crate::wire::encode::{put_be32, put_block_data, put_bytes};
use crate::wire::{enc_be32, enc_block_data, enc_string};
use sha2::Digest;
use vstd::prelude::*;

verus! {

/// The SHA-256 digest of a byte string.
pub uninterp spec fn sha256(data: Seq<u8>) -> Seq<u8>;

/// `sha2::Sha256::digest`: the thirty-two bytes that SHA-256 gives for
/// `data`. Nothing more is claimed of them than that they depend on `data`
/// alone.
#[verifier::external_body]
pub(crate) fn sha256_digest(data: &[u8]) -> (digest: [u8; 32])
    ensures
        digest@ == sha256(data@),
{
    sha2::Sha256::digest(data).into()
}

/// `bincode::serialize` on a string: the length of the string's UTF-8 form in
/// 64 bits, least significant byte first, then that form. It does not fail:
/// no size limit is set, and the bytes are written to a vector.
#[verifier::external_body]
pub(crate) fn bincode_text(text: &String) -> (bytes: Option<Vec<u8>>)
    ensures
        bytes is Some,
        bytes.unwrap()@ == enc_string(text@),
{
    bincode::serialize(text).ok()
}

/// What is hashed of a block before the nonce: its id, most significant byte
/// first, the predecessor's hash, the payload and the miner's label as they
/// travel on the wire.
pub open spec fn hash_prefix(block: BlockView) -> Seq<u8> {
    enc_be32(block.id) + block.prev_hash + enc_block_data(block.data) + enc_string(block.mined_by)
}

/// The hash that a block has with the given nonce.
pub open spec fn digest_with(block: BlockView, nonce: u32) -> Seq<u8> {
    sha256(hash_prefix(block) + enc_be32(nonce))
}

/// The hash computed from a block's fields other than `hash`.
pub open spec fn block_digest(block: BlockView) -> Seq<u8> {
    digest_with(block, block.nonce)
}

/// The difficulty predicate: the first three bytes are zero and the fourth is
/// at most 128.
pub open spec fn meets_difficulty(digest: Seq<u8>) -> bool {
    &&& digest.len() >= 4
    &&& digest[0] == 0
    &&& digest[1] == 0
    &&& digest[2] == 0
    &&& digest[3] <= 128
}

/// A block is sealed when its stored hash is the hash of its other fields
/// and meets the difficulty.
pub open spec fn sealed(block: BlockView) -> bool {
    block.hash == block_digest(block) && meets_difficulty(block.hash)
}

/// The outcome of holding a stored hash against the hash that was computed:
/// the two must be the same, and meet the difficulty.
pub open spec fn check_hash(stored: Seq<u8>, computed: Seq<u8>) -> Result<(), VerifyError> {
    if stored != computed {
        Err(VerifyError::HashMismatch)
    } else if !meets_difficulty(computed) {
        Err(VerifyError::DifficultyUnmet)
    } else {
        Ok(())
    }
}

/// The outcome of checking a block by itself.
pub open spec fn check_block(block: BlockView) -> Result<(), VerifyError> {
    check_hash(block.hash, block_digest(block))
}

/// The hash that the next block of `chain` has to name.
pub open spec fn tip_hash(chain: Seq<BlockView>) -> Seq<u8> {
    if chain.len() == 0 {
        zero_hash()
    } else {
        chain.last().hash
    }
}

/// The outcome of checking a block that is offered as the next of `chain`.
pub open spec fn check_new_block(block: BlockView, chain: Seq<BlockView>) -> Result<
    (),
    VerifyError,
> {
    if block.id != chain.len() {
        Err(VerifyError::IdGap)
    } else if block.prev_hash != tip_hash(chain) {
        Err(VerifyError::PrevHashMismatch)
    } else {
        check_block(block)
    }
}

/// The outcome of checking a block as a member of the offered chain `chain`:
/// its predecessor is looked up by id.
pub open spec fn check_broadcasted_block(block: BlockView, chain: Seq<BlockView>) -> Result<
    (),
    VerifyError,
> {
    if block.id > chain.len() {
        Err(VerifyError::IdGap)
    } else if block.prev_hash != (if block.id == 0 {
        zero_hash()
    } else {
        chain[block.id - 1].hash
    }) {
        Err(VerifyError::PrevHashMismatch)
    } else {
        check_block(block)
    }
}

/// Whether two hashes are the same.
pub fn same_hash(a: &[u8; 32], b: &[u8; 32]) -> (same: bool)
    ensures
        same == (a@ == b@),
{
    let mut i: usize = 0;
    while i < 32
        invariant
            i <= 32,
            forall|j: int| 0 <= j < i ==> a@[j] == b@[j],
        decreases 32 - i,
    {
        if a[i] != b[i] {
            return false;
        }
        i += 1;
    }
    assert(a@ =~= b@);
    true
}

/// Whether a hash is thirty-two zero bytes.
pub fn is_zero_hash(hash: &[u8; 32]) -> (zero: bool)
    ensures
        zero == (hash@ == zero_hash()),
{
    let mut i: usize = 0;
    while i < 32
        invariant
            i <= 32,
            forall|j: int| 0 <= j < i ==> hash@[j] == 0,
        decreases 32 - i,
    {
        if hash[i] != 0 {
            assert(zero_hash()[i as int] == 0);
            return false;
        }
        i += 1;
    }
    assert(hash@ =~= zero_hash());
    true
}

/// Whether a digest meets the difficulty.
pub fn check_difficulty(digest: &[u8; 32]) -> (ok: bool)
    ensures
        ok == meets_difficulty(digest@),
{
    digest[0] == 0 && digest[1] == 0 && digest[2] == 0 && digest[3] <= 128
}

/// The bytes of a block that are hashed before the nonce. The miner's label
/// is written by `bincode`, as every string on the wire is laid out.
pub fn hash_prefix_bytes(block: &Block) -> (bytes: Vec<u8>)
    ensures
        bytes@ == hash_prefix(block@),
{
    let mut bytes: Vec<u8> = Vec::new();
    put_be32(&mut bytes, block.id);
    put_bytes(&mut bytes, block.prev_hash.as_slice());
    put_block_data(&mut bytes, &block.data);
    if let Some(label) = bincode_text(&block.mined_by) {
        put_bytes(&mut bytes, label.as_slice());
    }
    assert(bytes@ =~= hash_prefix(block@));
    bytes
}

/// The hash computed from a block's fields other than `hash`.
pub fn compute_hash(block: &Block) -> (digest: [u8; 32])
    ensures
        digest@ == block_digest(block@),
{
    let mut bytes = hash_prefix_bytes(block);
    put_be32(&mut bytes, block.nonce);
    sha256_digest(bytes.as_slice())
}

/// Holds a stored hash against the hash that was computed from a block's
/// other fields.
pub fn verify_hash(stored: &[u8; 32], computed: &[u8; 32]) -> (res: Result<(), VerifyError>)
    ensures
        res == check_hash(stored@, computed@),
{
    if !same_hash(stored, computed) {
        Err(VerifyError::HashMismatch)
    } else if !check_difficulty(computed) {
        Err(VerifyError::DifficultyUnmet)
    } else {
        Ok(())
    }
}

/// Checks a block by itself: that its stored hash is the hash of its other
/// fields, and that this hash meets the difficulty.
pub fn verify_block(block: &Block) -> (res: Result<(), VerifyError>)
    ensures
        res == check_block(block@),
        res is Ok <==> sealed(block@),
{
    let digest = compute_hash(block);
    verify_hash(&block.hash, &digest)
}

/// Checks a block that is offered as the next block of `blockchain`: its id
/// is the chain's length, it names the hash of the last block (thirty-two
/// zero bytes where the chain is empty), and it passes `verify_block`.
pub fn verify_new_block(block: &Block, blockchain: &Vec<Block>) -> (res: Result<(), VerifyError>)
    ensures
        res == check_new_block(block@, chain_view(blockchain@)),
{
    if block.id as usize != blockchain.len() {
        return Err(VerifyError::IdGap);
    }
    let named = if blockchain.len() == 0 {
        is_zero_hash(&block.prev_hash)
    } else {
        same_hash(&block.prev_hash, &blockchain[blockchain.len() - 1].hash)
    };
    if !named {
        return Err(VerifyError::PrevHashMismatch);
    }
    verify_block(block)
}

/// Checks a block as a member of the offered chain `blockchain`: it names the
/// hash of the block before it, found by id (thirty-two zero bytes for id 0),
/// and it passes `verify_block`. A block whose predecessor the chain does not
/// hold is refused.
pub fn verify_broadcasted_block(block: &Block, blockchain: &Vec<Block>) -> (res: Result<
    (),
    VerifyError,
>)
    ensures
        res == check_broadcasted_block(block@, chain_view(blockchain@)),
{
    if block.id as usize > blockchain.len() {
        return Err(VerifyError::IdGap);
    }
    let named = if block.id == 0 {
        is_zero_hash(&block.prev_hash)
    } else {
        same_hash(&block.prev_hash, &blockchain[(block.id - 1) as usize].hash)
    };
    if !named {
        return Err(VerifyError::PrevHashMismatch);
    }
    verify_block(block)
}

} // verus!
