//! What holds of a node's chain whatever messages arrive.

use crate::chain::{lemma_faultless_is_well_formed, link_ok, well_formed};
use crate::datatypes::{zero_hash, BlockDataView, BlockView, Comm};
use crate::handlers::{judge_block, judge_chain, Offer};
use crate::hashing::check_new_block;
use crate::miner::{candidate, has_successor, lemma_mined_is_sealed, mined_from};
use crate::node::{chain_after, tip};
use crate::wire::{enc_block, enc_chain};
use crate::wire::laws::{lemma_decode_encoded_block, lemma_decode_encoded_chain};
use crate::wire::layout::{block_fits, chain_fits};
use vstd::prelude::*;

verus! {

/// A message that arrives, and whether a worker could be told to stop when
/// it was handled.
pub struct Arrival {
    pub command: Comm,
    pub payload: Seq<u8>,
    pub worker_told: bool,
}

/// The chain that a node holds after a run of arrivals, having started with
/// no block.
pub open spec fn chain_after_all(arrivals: Seq<Arrival>) -> Seq<BlockView>
    decreases arrivals.len(),
{
    if arrivals.len() == 0 {
        Seq::empty()
    } else {
        let last = arrivals.last();
        chain_after(
            chain_after_all(arrivals.drop_last()),
            last.command,
            last.payload,
            last.worker_told,
        )
    }
}

/// Handling a message keeps a well-formed chain well formed.
pub proof fn lemma_step_keeps_well_formed(
    chain: Seq<BlockView>,
    command: Comm,
    payload: Seq<u8>,
    worker_told: bool,
)
    requires
        well_formed(chain),
    ensures
        well_formed(chain_after(chain, command, payload, worker_told)),
{
    let after = chain_after(chain, command, payload, worker_told);
    match command {
        Comm::NewBlock => {
            if let Offer::Fits(block) = judge_block(payload, chain) {
                if worker_told {
                    assert forall|i: int| 0 <= i < after.len() implies link_ok(after, i) by {
                        if i < chain.len() {
                            assert(link_ok(chain, i));
                        }
                    }
                }
            }
        },
        Comm::Blockchain => {
            if let Ok(offered) = judge_chain(payload, chain) {
                lemma_faultless_is_well_formed(offered);
            }
        },
        _ => {},
    }
}

/// Whatever messages arrive at a node that started with no block, every
/// block of its chain has its place as id, names the hash of the block before
/// it (thirty-two zero bytes in the first place), and carries the hash of its
/// other fields, which meets the difficulty.
pub proof fn lemma_chain_always_well_formed(arrivals: Seq<Arrival>)
    ensures
        well_formed(chain_after_all(arrivals)),
    decreases arrivals.len(),
{
    if arrivals.len() > 0 {
        let last = arrivals.last();
        lemma_chain_always_well_formed(arrivals.drop_last());
        lemma_step_keeps_well_formed(
            chain_after_all(arrivals.drop_last()),
            last.command,
            last.payload,
            last.worker_told,
        );
    }
}

/// A new block whose id is not the length of the chain, be it an id that is
/// taken or one that is yet to come, leaves the chain as it is.
pub proof fn lemma_stale_block_changes_nothing(
    chain: Seq<BlockView>,
    block: BlockView,
    rest: Seq<u8>,
    worker_told: bool,
)
    requires
        block_fits(block),
        block.id != chain.len(),
    ensures
        chain_after(chain, Comm::NewBlock, enc_block(block) + rest, worker_told) == chain,
{
    lemma_decode_encoded_block(block, rest);
}

/// A new block that passes the check of a new block is appended, where the
/// worker could be told to stop.
pub proof fn lemma_fitting_block_is_appended(chain: Seq<BlockView>, block: BlockView, rest: Seq<u8>)
    requires
        block_fits(block),
        check_new_block(block, chain) is Ok,
    ensures
        chain_after(chain, Comm::NewBlock, enc_block(block) + rest, true) == chain.push(block),
        chain_after(chain, Comm::NewBlock, enc_block(block) + rest, false) == chain,
{
    lemma_decode_encoded_block(block, rest);
}

/// An offered chain that is longer than the chain held, and well formed,
/// replaces it.
pub proof fn lemma_longer_chain_is_adopted(
    chain: Seq<BlockView>,
    offered: Seq<BlockView>,
    rest: Seq<u8>,
    worker_told: bool,
)
    requires
        chain_fits(offered),
        well_formed(offered),
        offered.len() > chain.len(),
    ensures
        chain_after(chain, Comm::Blockchain, enc_chain(offered) + rest, worker_told) == offered,
{
    lemma_decode_encoded_chain(offered, rest);
    lemma_faultless_is_well_formed(offered);
}

/// An offered chain that is not longer than the chain held leaves it as it
/// is.
pub proof fn lemma_shorter_chain_changes_nothing(
    chain: Seq<BlockView>,
    offered: Seq<BlockView>,
    rest: Seq<u8>,
    worker_told: bool,
)
    requires
        chain_fits(offered),
        offered.len() <= chain.len(),
    ensures
        chain_after(chain, Comm::Blockchain, enc_chain(offered) + rest, worker_told) == chain,
{
    lemma_decode_encoded_chain(offered, rest);
}

/// An offered chain with a block that is out of order leaves the chain held
/// as it is, however long it is.
pub proof fn lemma_faulty_chain_changes_nothing(
    chain: Seq<BlockView>,
    offered: Seq<BlockView>,
    at: int,
    rest: Seq<u8>,
    worker_told: bool,
)
    requires
        chain_fits(offered),
        0 <= at < offered.len(),
        !link_ok(offered, at),
    ensures
        chain_after(chain, Comm::Blockchain, enc_chain(offered) + rest, worker_told) == chain,
{
    lemma_decode_encoded_chain(offered, rest);
    lemma_faultless_is_well_formed(offered);
}

/// A block that was mined on the last block of a well-formed chain passes
/// the check of a new block for that chain, where the last block can have a
/// successor and its hash is not thirty-two zero bytes, which a miner takes
/// for the sign of an empty chain.
pub proof fn lemma_mined_block_fits(
    chain: Seq<BlockView>,
    data: BlockDataView,
    name: Seq<char>,
    block: BlockView,
)
    requires
        well_formed(chain),
        has_successor(tip(chain)),
        chain.len() > 0 ==> chain.last().hash != zero_hash(),
        mined_from(candidate(data, tip(chain), name), block),
    ensures
        check_new_block(block, chain) is Ok,
{
    lemma_mined_is_sealed(candidate(data, tip(chain), name), block);
    if chain.len() > 0 {
        assert(link_ok(chain, chain.len() - 1));
    }
}


/// A block that was mined on the last block of a well-formed chain is
/// appended by every node that holds this chain and can tell its worker to
/// stop, under the conditions of `lemma_mined_block_fits`.
pub proof fn lemma_mined_block_is_appended(
    chain: Seq<BlockView>,
    data: BlockDataView,
    name: Seq<char>,
    block: BlockView,
    rest: Seq<u8>,
)
    requires
        well_formed(chain),
        has_successor(tip(chain)),
        chain.len() > 0 ==> chain.last().hash != zero_hash(),
        mined_from(candidate(data, tip(chain), name), block),
        block_fits(block),
    ensures
        chain_after(chain, Comm::NewBlock, enc_block(block) + rest, true) == chain.push(block),
        well_formed(chain.push(block)),
{
    lemma_mined_block_fits(chain, data, name, block);
    lemma_fitting_block_is_appended(chain, block, rest);
    lemma_step_keeps_well_formed(chain, Comm::NewBlock, enc_block(block) + rest, true);
}

} // verus!
