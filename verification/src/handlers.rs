//! What a node does with a new block, with an offered chain and with a
//! request to evaluate a contract.

use crate::chain::{
    fault_at, first_fault, lemma_faultless_is_well_formed, link_ok, well_formed,
};
use crate::contract::{
    callable, computes, contract_value, number_as_index, number_index, reverse_polish,
};
use crate::datatypes::{
    chain_view, Block, BlockData, BlockDataView, BlockView, Comm, ContractResult,
    ContractResultView, Msg, RevPolish,
};
use crate::error::{BlockRefError, Failure, VerifyError};
use crate::hashing::{check_new_block, verify_broadcasted_block, verify_new_block};
use crate::wire::{
    dec_block, dec_chain, dec_numbers, decode_block, decode_chain, decode_numbers, enc_block,
    enc_block_data, encode_block, encode_block_data,
};
use crossbeam_channel::Sender;
use vstd::prelude::*;

verus! {

/// `crossbeam_channel::Sender`, the sending end of a channel, made known as
/// a type whose values are handed on and never looked into.
#[verifier::external_type_specification]
#[verifier::external_body]
#[verifier::reject_recursive_types(T)]
pub struct ExSender<T>(Sender<T>);

/// `Sender::send`: hands `msg` to the channel. It fails where no receiver is
/// left, which depends on what other threads have done, so nothing is
/// claimed of the answer.
#[verifier::external_body]
pub(crate) fn send_control(tx: &Sender<Msg>, msg: Msg) -> (sent: bool) {
    tx.send(msg).is_ok()
}

/// How a payload stands to a chain when it is offered as its next block.
pub enum Offer {
    /// The payload is not the layout of a block.
    Malformed,
    /// The block's id is not the length of the chain.
    Stale,
    /// The block does not pass the check of a new block.
    Refused(VerifyError),
    /// The block can be appended.
    Fits(BlockView),
}

/// How `payload` stands to `chain` when it is offered as its next block.
pub open spec fn judge_block(payload: Seq<u8>, chain: Seq<BlockView>) -> Offer {
    match dec_block(payload, 0) {
        None => Offer::Malformed,
        Some((block, _)) => if block.id != chain.len() {
            Offer::Stale
        } else {
            match check_new_block(block, chain) {
                Err(e) => Offer::Refused(e),
                Ok(_) => Offer::Fits(block),
            }
        },
    }
}

/// The message that tells a worker to stop mining.
pub fn end_mining() -> (msg: Msg)
    ensures
        msg.command == Comm::EndMining,
        msg.data@.len() == 0,
{
    Msg { command: Comm::EndMining, data: Vec::new() }
}

/// Appends a block, given whether the worker could be told to stop. Where it
/// could not, the chain stays as it is; where it could, the block is appended
/// and the `Accepted` message that carries it is returned. A well-formed
/// chain stays well formed where the block passes the check of a new block.
pub fn accept_block(blockchain: &mut Vec<Block>, block: Block, worker_told: bool) -> (res: Result<
    Msg,
    Failure,
>)
    ensures
        !worker_told ==> {
            &&& res == Err::<Msg, Failure>(Failure::ControlClosed)
            &&& final(blockchain)@ == old(blockchain)@
        },
        worker_told ==> {
            &&& res matches Ok(out)
            &&& out.command == Comm::Accepted
            &&& out.data@ == enc_block(block@)
            &&& final(blockchain)@ == old(blockchain)@.push(block)
            &&& chain_view(final(blockchain)@) == chain_view(old(blockchain)@).push(block@)
        },
        well_formed(chain_view(old(blockchain)@)) && check_new_block(
            block@,
            chain_view(old(blockchain)@),
        ) is Ok ==> well_formed(chain_view(final(blockchain)@)),
{
    if !worker_told {
        return Err(Failure::ControlClosed);
    }
    let out = Msg { command: Comm::Accepted, data: encode_block(&block) };
    proof {
        let before = chain_view(blockchain@);
        let after = before.push(block@);
        assert(chain_view(blockchain@.push(block)) =~= after);
        if well_formed(before) && check_new_block(block@, before) is Ok {
            assert forall|i: int| 0 <= i < after.len() implies link_ok(after, i) by {
                if i < before.len() {
                    assert(link_ok(before, i));
                }
            }
        }
    }
    blockchain.push(block);
    Ok(out)
}

/// Handles a `NewBlock` message.
///
/// A payload that is no block is a decoding failure. A block whose id is not
/// the length of the chain is passed over: nothing is returned and nothing
/// changes. A block that fails the check of a new block is refused with what
/// the check found. A block that passes makes the worker be told to stop
/// mining, is appended, and comes back inside the `Accepted` message that the
/// caller is to multicast; only where the control channel has no receiver
/// left does the chain stay as it is.
pub fn handle_new_block(msg: &Msg, blockchain: &mut Vec<Block>, tx: &Sender<Msg>) -> (res: Result<
    Option<Msg>,
    Failure,
>)
    ensures
        match judge_block(msg.data@, chain_view(old(blockchain)@)) {
            Offer::Malformed => {
                &&& res == Err::<Option<Msg>, Failure>(Failure::Decode)
                &&& final(blockchain)@ == old(blockchain)@
            },
            Offer::Stale => {
                &&& res == Ok::<Option<Msg>, Failure>(None)
                &&& final(blockchain)@ == old(blockchain)@
            },
            Offer::Refused(e) => {
                &&& res == Err::<Option<Msg>, Failure>(Failure::Verification(e))
                &&& final(blockchain)@ == old(blockchain)@
            },
            Offer::Fits(block) => {
                ||| {
                    &&& res == Err::<Option<Msg>, Failure>(Failure::ControlClosed)
                    &&& final(blockchain)@ == old(blockchain)@
                }
                ||| {
                    &&& res matches Ok(Some(out))
                    &&& out.command == Comm::Accepted
                    &&& out.data@ == enc_block(block)
                    &&& chain_view(final(blockchain)@) == chain_view(old(blockchain)@).push(block)
                }
            },
        },
        well_formed(chain_view(old(blockchain)@)) ==> well_formed(chain_view(final(blockchain)@)),
        match res {
            Ok(Some(out)) => {
                &&& final(blockchain)@.len() == old(blockchain)@.len() + 1
                &&& final(blockchain)@.drop_last() == old(blockchain)@
                &&& out.command == Comm::Accepted
                &&& out.data@ == enc_block(final(blockchain)@.last()@)
            },
            _ => final(blockchain)@ == old(blockchain)@,
        },
{
    let block = match decode_block(msg.data.as_slice()) {
        None => { return Err(Failure::Decode); },
        Some(block) => block,
    };
    if block.id as usize != blockchain.len() {
        return Ok(None);
    }
    match verify_new_block(&block, blockchain) {
        Err(e) => { return Err(Failure::Verification(e)); },
        Ok(_) => {},
    }
    let worker_told = send_control(tx, end_mining());
    assert(blockchain@.push(block).drop_last() =~= blockchain@);
    match accept_block(blockchain, block, worker_told) {
        Err(e) => Err(e),
        Ok(out) => Ok(Some(out)),
    }
}

/// What is wrong with the block at place `i` of an offered chain, if
/// anything.
fn member_fault(blockchain: &Vec<Block>, i: usize) -> (fault: Option<VerifyError>)
    requires
        i < blockchain@.len(),
    ensures
        fault == fault_at(chain_view(blockchain@), i as int),
{
    let block = &blockchain[i];
    assert(chain_view(blockchain@)[i as int] == block@);
    if block.id as usize != i {
        return Some(VerifyError::IdGap);
    }
    match verify_broadcasted_block(block, blockchain) {
        Err(e) => Some(e),
        Ok(_) => None,
    }
}

/// The first fault of an offered chain, if it has one.
pub fn chain_fault(blockchain: &Vec<Block>) -> (fault: Option<VerifyError>)
    ensures
        fault == first_fault(chain_view(blockchain@), blockchain@.len()),
{
    let ghost offered = chain_view(blockchain@);
    let mut i: usize = 0;
    while i < blockchain.len()
        invariant
            i <= blockchain.len(),
            offered == chain_view(blockchain@),
            first_fault(offered, i as nat) is None,
        decreases blockchain.len() - i,
    {
        let fault = member_fault(blockchain, i);
        if fault.is_some() {
            proof {
                assert(first_fault(offered, (i + 1) as nat) == fault);
                lemma_fault_persists(offered, (i + 1) as nat, offered.len());
            }
            return fault;
        }
        assert(first_fault(offered, (i + 1) as nat) is None);
        i += 1;
    }
    None
}

/// How an offered chain stands to the chain that is held: the failure that
/// keeps it from being adopted, or the chain itself.
pub open spec fn judge_chain(payload: Seq<u8>, current: Seq<BlockView>) -> Result<
    Seq<BlockView>,
    Failure,
> {
    match dec_chain(payload, 0) {
        None => Err(Failure::Decode),
        Some((offered, _)) => if offered.len() <= current.len() {
            Err(Failure::Shorter)
        } else {
            match first_fault(offered, offered.len()) {
                Some(e) => Err(Failure::Verification(e)),
                None => Ok(offered),
            }
        },
    }
}

/// Handles a `Blockchain` message: decodes the offered chain and returns it
/// where it is to replace the chain that is held.
///
/// The offered chain replaces the other exactly when it is longer and every
/// block of it has its place as id, names the hash of the block before it and
/// is sealed. Otherwise the failure says why not: the payload is no chain, the
/// chain is not longer, or the first block that is out of order, with what is
/// wrong with it.
pub fn handle_incoming_blockchain(msg: &Msg, current_blockchain: &Vec<Block>) -> (res: Result<
    Vec<Block>,
    Failure,
>)
    ensures
        match judge_chain(msg.data@, chain_view(current_blockchain@)) {
            Err(e) => res == Err::<Vec<Block>, Failure>(e),
            Ok(offered) => res matches Ok(chain) && chain_view(chain@) == offered,
        },
        res matches Ok(chain) ==> well_formed(chain_view(chain@)) && chain@.len()
            > current_blockchain@.len(),
{
    let new_blockchain = match decode_chain(msg.data.as_slice()) {
        None => { return Err(Failure::Decode); },
        Some(chain) => chain,
    };
    if current_blockchain.len() >= new_blockchain.len() {
        return Err(Failure::Shorter);
    }
    match chain_fault(&new_blockchain) {
        Some(e) => { return Err(Failure::Verification(e)); },
        None => {},
    }
    proof {
        lemma_faultless_is_well_formed(chain_view(new_blockchain@));
    }
    Ok(new_blockchain)
}

/// The first fault of a longer stretch is the first fault of a shorter one
/// that has a fault.
pub proof fn lemma_fault_persists(chain: Seq<BlockView>, upto: nat, more: nat)
    requires
        first_fault(chain, upto) is Some,
        upto <= more,
    ensures
        first_fault(chain, more) == first_fault(chain, upto),
    decreases more,
{
    if upto < more {
        lemma_fault_persists(chain, upto, (more - 1) as nat);
    }
}

/// What a request to evaluate a contract asks for: the place of the block
/// that holds the contract, the contract, and the arguments. The last number
/// of the payload denotes the place; the numbers before it are the
/// arguments.
pub open spec fn calc_request(payload: Seq<u8>, chain: Seq<BlockView>) -> Result<
    (int, Seq<RevPolish>, Seq<u64>),
    Failure,
> {
    match dec_numbers(payload, 0) {
        None => Err(Failure::Decode),
        Some((numbers, _)) => if numbers.len() == 0 {
            Err(Failure::BlockRef(BlockRefError::MissingId))
        } else {
            let place = number_index(numbers.last());
            if place >= chain.len() {
                Err(Failure::BlockRef(BlockRefError::OutOfRange))
            } else {
                match chain[place].data {
                    BlockDataView::Contract(items) => Ok((place, items, numbers.drop_last())),
                    _ => Err(Failure::BlockRef(BlockRefError::NotContract)),
                }
            }
        },
    }
}

/// The record of a contract's value: the place of the contract's block, cut
/// to 32 bits, the value, and the arguments that gave it.
pub open spec fn contract_record(place: int, value: u64, args: Seq<u64>) -> BlockDataView {
    BlockDataView::ContractResult(
        ContractResultView { block_id: (place % 0x1_0000_0000) as u32, result: value, args: args },
    )
}

/// The payload of the request to mine the value of a contract, or the
/// failure that the request to evaluate it ends in, under the arithmetic
/// `arith`.
pub open spec fn calc_reply(
    arith: spec_fn(char, u64, u64) -> u64,
    payload: Seq<u8>,
    chain: Seq<BlockView>,
) -> Result<Seq<u8>, Failure> {
    match calc_request(payload, chain) {
        Err(e) => Err(e),
        Ok((place, items, args)) => match contract_value(arith, items, args) {
            Err(e) => Err(Failure::ContractEval(e)),
            Ok(value) => Ok(enc_block_data(contract_record(place, value, args))),
        },
    }
}

/// Handles a `CalcContract` message with the arithmetic `f`.
///
/// The payload is a sequence of numbers, of which the last names a block and
/// the others are arguments. Where the block exists and holds a contract, the
/// contract is evaluated on the arguments; its value comes back inside the
/// `DataToBlock` message that asks for a block recording it, for the caller
/// to hand to the dispatcher.
pub fn handle_calc_contract<F: Fn(char, u64, u64) -> u64>(
    msg: &Msg,
    blockchain: &Vec<Block>,
    f: F,
) -> (res: Result<Msg, Failure>)
    requires
        callable(f),
    ensures
        calc_request(msg.data@, chain_view(blockchain@)) matches Err(e) ==> res == Err::<
            Msg,
            Failure,
        >(e),
        forall|arith: spec_fn(char, u64, u64) -> u64|
            computes(f, arith) ==> match #[trigger] calc_reply(
                arith,
                msg.data@,
                chain_view(blockchain@),
            ) {
                Err(e) => res == Err::<Msg, Failure>(e),
                Ok(payload) => res matches Ok(out) && out.command == Comm::DataToBlock && out.data@
                    == payload,
            },
{
    let mut args = match decode_numbers(msg.data.as_slice()) {
        None => { return Err(Failure::Decode); },
        Some(numbers) => numbers,
    };
    let ghost numbers = args@;
    let last = match args.pop() {
        None => { return Err(Failure::BlockRef(BlockRefError::MissingId)); },
        Some(bits) => bits,
    };
    let block_id: usize = number_as_index(last);
    if block_id >= blockchain.len() {
        return Err(Failure::BlockRef(BlockRefError::OutOfRange));
    }
    assert(chain_view(blockchain@)[block_id as int] == blockchain@[block_id as int]@);
    match &blockchain[block_id].data {
        BlockData::Contract(items) => {
            let value = match reverse_polish(items, &args, f) {
                Err(e) => {
                    return Err(Failure::ContractEval(e));
                },
                Ok(value) => value,
            };
            let data = BlockData::ContractResult(
                ContractResult {
                    block_id: (block_id as u64 % 0x1_0000_0000) as u32,
                    result: value,
                    args,
                },
            );
            Ok(Msg { command: Comm::DataToBlock, data: encode_block_data(&data) })
        },
        _ => Err(Failure::BlockRef(BlockRefError::NotContract)),
    }
}

} // verus!
