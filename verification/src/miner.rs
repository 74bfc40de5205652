//! Proof of work: the search for a nonce that seals a candidate block, which
//! gives way as soon as anything waits on the worker's control channel.

use crate::datatypes::{zero_hash, Block, BlockData, BlockDataView, BlockView, Comm, Msg};
use crate::error::Failure;
use crate::hashing::{
    check_difficulty, digest_with, hash_prefix, hash_prefix_bytes, is_zero_hash, meets_difficulty,
    sealed, sha256, sha256_digest,
};
use crate::wire::encode::put_be32;
use crate::wire::{
    block_fits, dec_block_data, decode_block_data, enc_be32, enc_block, encode_block,
};
use crossbeam_channel::Receiver;
use vstd::prelude::*;

verus! {

/// `crossbeam_channel::Receiver`, the receiving end of a channel, made known
/// as a type whose values are handed on and never looked into.
#[verifier::external_type_specification]
#[verifier::external_body]
#[verifier::reject_recursive_types(T)]
pub struct ExReceiver<T>(Receiver<T>);

/// `Receiver::is_empty`: whether nothing waits on the channel at this
/// moment. The answer depends on what other threads have sent, so nothing is
/// claimed of it.
#[verifier::external_body]
pub(crate) fn control_is_empty(rx: &Receiver<Msg>) -> (empty: bool) {
    rx.is_empty()
}

/// Whether `nonce` makes the hash of `block` meet the difficulty.
pub open spec fn nonce_seals(block: BlockView, nonce: u32) -> bool {
    meets_difficulty(digest_with(block, nonce))
}

/// Whether `nonce` is the smallest nonce that seals `block`.
pub open spec fn first_sealing_nonce(block: BlockView, nonce: u32) -> bool {
    nonce_seals(block, nonce) && forall|n: u32| n < nonce ==> !nonce_seals(block, n)
}

/// The candidate with a nonce and the hash that it has with that nonce.
pub open spec fn seal(candidate: BlockView, nonce: u32) -> BlockView {
    BlockView { hash: digest_with(candidate, nonce), nonce: nonce, ..candidate }
}

/// Whether `block` is what mining `candidate` yields: the candidate, sealed
/// with the smallest nonce that seals it.
pub open spec fn mined_from(candidate: BlockView, block: BlockView) -> bool {
    first_sealing_nonce(candidate, block.nonce) && block == seal(candidate, block.nonce)
}

/// The block that a miner starts from: it follows `last`, carries `data` and
/// the miner's label, and has no nonce or hash yet. After the placeholder
/// block its id is 0.
pub open spec fn candidate(data: BlockDataView, last: BlockView, name: Seq<char>) -> BlockView {
    BlockView {
        hash: zero_hash(),
        id: if last.hash == zero_hash() {
            0u32
        } else {
            (last.id + 1) as u32
        },
        prev_hash: last.hash,
        nonce: 0,
        data: data,
        mined_by: name,
    }
}

/// What one round of the search comes to.
pub enum Round {
    /// Something waits on the control channel: the search ends.
    Stopped,
    /// The nonce seals the block, with this hash.
    Sealed([u8; 32]),
    /// The nonce does not seal the block.
    Missed,
}

/// One round of the search, on the bytes to hash (the block's prefix and a
/// nonce) and on whether the control channel was found empty before it. A
/// waiting message ends the search before anything is hashed.
pub fn search_round(input: &[u8], control_empty: bool) -> (round: Round)
    ensures
        match round {
            Round::Stopped => !control_empty,
            Round::Sealed(hash) => control_empty && hash@ == sha256(input@) && meets_difficulty(
                hash@,
            ),
            Round::Missed => control_empty && !meets_difficulty(sha256(input@)),
        },
{
    if !control_empty {
        return Round::Stopped;
    }
    let digest = sha256_digest(input);
    if check_difficulty(&digest) {
        Round::Sealed(digest)
    } else {
        Round::Missed
    }
}

/// Writes `nonce`, most significant byte first, over the last four bytes.
fn set_nonce(input: &mut Vec<u8>, nonce: u32)
    requires
        old(input)@.len() >= 4,
    ensures
        final(input)@ == old(input)@.subrange(0, old(input)@.len() - 4) + enc_be32(nonce),
{
    let end: usize = input.len();
    input[end - 4] = (nonce / 0x100_0000 % 256) as u8;
    input[end - 3] = (nonce / 0x1_0000 % 256) as u8;
    input[end - 2] = (nonce / 0x100 % 256) as u8;
    input[end - 1] = (nonce % 256) as u8;
    assert(input@ =~= old(input)@.subrange(0, old(input)@.len() - 4) + enc_be32(nonce));
}

/// Searches the nonces from 0 upwards for the first that seals `new_block`,
/// looking at the control channel before each attempt.
///
/// A nonce that is returned is the smallest that seals the block, and comes
/// with the block's hash under it. The search is given up as soon as the
/// control channel is found non-empty, and when every nonce has been tried.
pub fn mine_block(new_block: &Block, rx: &Receiver<Msg>) -> (res: Result<(u32, [u8; 32]), Failure>)
    ensures
        match res {
            Ok((nonce, hash)) => first_sealing_nonce(new_block@, nonce) && hash@ == digest_with(
                new_block@,
                nonce,
            ),
            Err(Failure::MinerCancelled) => true,
            Err(Failure::NonceExhausted) => forall|n: u32| !nonce_seals(new_block@, n),
            Err(_) => false,
        },
{
    let mut input = hash_prefix_bytes(new_block);
    let at = input.len();
    put_be32(&mut input, 0);
    let mut nonce: u32 = 0;
    loop
        invariant
            input@.len() == at + 4,
            input@.subrange(0, at as int) == hash_prefix(new_block@),
            forall|n: u32| n < nonce ==> !nonce_seals(new_block@, n),
        decreases u32::MAX - nonce,
    {
        let control_empty = control_is_empty(rx);
        set_nonce(&mut input, nonce);
        match search_round(input.as_slice(), control_empty) {
            Round::Stopped => {
                return Err(Failure::MinerCancelled);
            },
            Round::Sealed(hash) => {
                return Ok((nonce, hash));
            },
            Round::Missed => {
                assert(!nonce_seals(new_block@, nonce));
                if nonce == u32::MAX {
                    return Err(Failure::NonceExhausted);
                }
                nonce += 1;
            },
        }
    }
}

/// Whether a block can follow `last`: it can after the placeholder, and
/// after any block whose id is not the largest there is.
pub open spec fn has_successor(last: BlockView) -> bool {
    last.hash == zero_hash() || last.id < u32::MAX
}

/// The block to mine after `last_block`, carrying `data` under the miner's
/// label. Fails where `last_block` can have no successor.
pub fn candidate_block(data: BlockData, last_block: &Block, node_name: &String) -> (res: Result<
    Block,
    Failure,
>)
    ensures
        match res {
            Ok(block) => has_successor(last_block@) && block@ == candidate(
                data@,
                last_block@,
                node_name@,
            ),
            Err(e) => !has_successor(last_block@) && e == Failure::IdExhausted,
        },
{
    let id: u32 = if is_zero_hash(&last_block.hash) {
        0
    } else if last_block.id == u32::MAX {
        return Err(Failure::IdExhausted);
    } else {
        last_block.id + 1
    };
    let block = Block {
        hash: [0u8; 32],
        id,
        prev_hash: last_block.hash,
        nonce: 0,
        data,
        mined_by: node_name.clone(),
    };
    assert(block.hash@ =~= zero_hash());
    Ok(block)
}

/// Mines the block that a request asks for.
///
/// The request's payload is decoded as what the block is to record, the
/// candidate after `last_block` is built under the miner's label, and the
/// first nonce that seals it is searched while the control channel stays
/// empty. What comes back is the `NewBlock` message that carries the sealed
/// block, for the caller to hand to the dispatcher and to the peers.
pub fn mint_block(msg: &Msg, last_block: &Block, node_name: &String, rx: &Receiver<Msg>) -> (res:
    Result<Msg, Failure>)
    ensures
        match dec_block_data(msg.data@, 0) {
            None => res == Err::<Msg, Failure>(Failure::Decode),
            Some((data, _)) => if !has_successor(last_block@) {
                res == Err::<Msg, Failure>(Failure::IdExhausted)
            } else {
                match res {
                    Ok(out) => out.command == Comm::NewBlock && exists|block: BlockView|
                        mined_from(candidate(data, last_block@, node_name@), block) && block_fits(
                            block,
                        ) && out.data@ == enc_block(block),
                    Err(Failure::MinerCancelled) => true,
                    Err(Failure::NonceExhausted) => forall|n: u32|
                        !nonce_seals(candidate(data, last_block@, node_name@), n),
                    Err(_) => false,
                }
            },
        },
{
    let data = match decode_block_data(msg.data.as_slice()) {
        None => { return Err(Failure::Decode); },
        Some(data) => data,
    };
    let mut new_block = match candidate_block(data, last_block, node_name) {
        Err(e) => { return Err(e); },
        Ok(block) => block,
    };
    let ghost start = new_block@;
    match mine_block(&new_block, rx) {
        Err(e) => Err(e),
        Ok((nonce, hash)) => {
            new_block.nonce = nonce;
            new_block.hash = hash;
            assert(new_block@ == seal(start, nonce));
            assert(mined_from(start, new_block@));
            Ok(Msg { command: Comm::NewBlock, data: encode_block(&new_block) })
        },
    }
}

/// Two searches on candidates that agree in id, predecessor, payload and
/// miner end with the same nonce and the same hash.
pub proof fn lemma_mining_is_deterministic(a: BlockView, b: BlockView, nonce_a: u32, nonce_b: u32)
    requires
        a.id == b.id,
        a.prev_hash == b.prev_hash,
        a.data == b.data,
        a.mined_by == b.mined_by,
        first_sealing_nonce(a, nonce_a),
        first_sealing_nonce(b, nonce_b),
    ensures
        nonce_a == nonce_b,
        digest_with(a, nonce_a) == digest_with(b, nonce_b),
{
    assert(hash_prefix(a) == hash_prefix(b));
    assert(forall|n: u32| nonce_seals(a, n) == nonce_seals(b, n));
    if nonce_a < nonce_b {
        assert(!nonce_seals(b, nonce_a));
    } else if nonce_b < nonce_a {
        assert(!nonce_seals(a, nonce_b));
    }
}

/// A block that was mined is sealed.
pub proof fn lemma_mined_is_sealed(candidate: BlockView, block: BlockView)
    requires
        mined_from(candidate, block),
    ensures
        sealed(block),
        block.id == candidate.id,
        block.prev_hash == candidate.prev_hash,
{
    assert(hash_prefix(block) == hash_prefix(candidate));
}

} // verus!
