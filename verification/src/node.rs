//! The dispatcher: what a node does with each message, as a step from the
//! chain, the miner's flag and the message to the new chain, the new flag and
//! what the caller is to do next.

use crate::chain::well_formed;
use crate::contract::{callable, computes};
use crate::datatypes::{chain_view, empty_block, Block, BlockView, Comm, Msg};
use crate::error::Failure;
use crate::handlers::{
    calc_reply, calc_request, end_mining, handle_calc_contract, handle_incoming_blockchain,
    handle_new_block, judge_block, judge_chain, send_control, Offer,
};
use crate::networking::broadcast_chain;
use crate::wire::{enc_block, enc_chain};
use crossbeam_channel::{Receiver, Sender};
use vstd::prelude::*;

verus! {

/// `crossbeam_channel::unbounded`: the two ends of a new channel. Nothing is
/// claimed of them.
#[verifier::external_body]
pub(crate) fn new_control_channel() -> (ends: (Sender<Msg>, Receiver<Msg>)) {
    crossbeam_channel::unbounded()
}

/// What the caller is to do after a message was handled.
pub enum Reaction {
    /// Nothing.
    Nothing,
    /// Start a worker that mines the block which `request` asks for, after
    /// `last_block`, listening on the control channel as it is now.
    StartMiner { request: Msg, last_block: Block },
    /// Send the message to the peers.
    Multicast(Msg),
    /// Hand the message to the dispatcher.
    Loopback(Msg),
    /// Show the chain to the operator.
    PrintChain,
    /// The chain was replaced by a longer one; `worker_told` says whether the
    /// worker could be told to stop.
    ChainReplaced { worker_told: bool },
    /// The message could not be handled.
    Failed(Failure),
}

/// The block that a new worker is to build on: the last of the chain, or the
/// placeholder where the chain is empty.
pub open spec fn tip(chain: Seq<BlockView>) -> BlockView {
    if chain.len() == 0 {
        empty_block()
    } else {
        chain.last()
    }
}

/// The block that a new worker is to build on.
pub fn last_block(blockchain: &Vec<Block>) -> (block: Block)
    ensures
        block@ == tip(chain_view(blockchain@)),
{
    if blockchain.len() == 0 {
        Block::new_empty()
    } else {
        blockchain[blockchain.len() - 1].clone()
    }
}

/// The chain that a node holds after a message, given the chain that it held
/// before and whether a worker could be told to stop.
///
/// Only two commands change the chain: a new block that fits is appended
/// where the worker could be told, and an offered chain that is longer and
/// well formed replaces the chain.
pub open spec fn chain_after(
    chain: Seq<BlockView>,
    command: Comm,
    payload: Seq<u8>,
    worker_told: bool,
) -> Seq<BlockView> {
    match command {
        Comm::NewBlock => match judge_block(payload, chain) {
            Offer::Fits(block) => if worker_told {
                chain.push(block)
            } else {
                chain
            },
            _ => chain,
        },
        Comm::Blockchain => match judge_chain(payload, chain) {
            Ok(offered) => offered,
            Err(_) => chain,
        },
        _ => chain,
    }
}

/// Handles one message.
///
/// `miner_finished` says whether the worker that was started last has come to
/// its end; it is looked at only where `is_miner_running` is set.
///
/// - `DataToBlock`: while a worker is running the request is dropped.
///   Otherwise the control channel is replaced by a new one, the flag is set,
///   and the caller is told to start a worker on the request, after the last
///   block of the chain. No other message touches the two ends of the
///   control channel.
/// - `NewBlock`: as `handle_new_block`; an accepted block comes back in the
///   `Accepted` message to multicast.
/// - `Blockchain`: as `handle_incoming_blockchain`; where the offered chain is
///   adopted, the worker is told to stop and the chain is replaced.
/// - `Broadcast`: the caller is told to multicast the chain.
/// - `PrintChain`: the caller is told to show the chain.
/// - `CalcContract`: as `handle_calc_contract` with the arithmetic `f`; the
///   request to mine the value comes back for the dispatcher.
/// - `Accepted`, `Rejected`, `EndMining`: nothing.
pub fn handle_msg<F: Fn(char, u64, u64) -> u64>(
    msg: Msg,
    blockchain: &mut Vec<Block>,
    is_miner_running: &mut bool,
    miner_finished: bool,
    tx_mpmc: &mut Sender<Msg>,
    rx_mpmc: &mut Receiver<Msg>,
    f: F,
) -> (reaction: Reaction)
    requires
        callable(f),
    ensures
        well_formed(chain_view(old(blockchain)@)) ==> well_formed(chain_view(final(blockchain)@)),
        exists|worker_told: bool|
            chain_view(final(blockchain)@) == chain_after(
                chain_view(old(blockchain)@),
                msg.command,
                msg.data@,
                worker_told,
            ),
        msg.command != Comm::DataToBlock ==> *final(is_miner_running) == *old(is_miner_running),
        msg.command != Comm::DataToBlock || (*old(is_miner_running) && !miner_finished) ==> {
            &&& *final(tx_mpmc) == *old(tx_mpmc)
            &&& *final(rx_mpmc) == *old(rx_mpmc)
        },
        msg.command != Comm::NewBlock && msg.command != Comm::Blockchain ==> final(blockchain)@
            == old(blockchain)@,
        match msg.command {
            Comm::DataToBlock => {
                &&& *final(is_miner_running)
                &&& if *old(is_miner_running) && !miner_finished {
                    reaction is Nothing
                } else {
                    &&& reaction matches Reaction::StartMiner { request, last_block }
                    &&& request.command == Comm::DataToBlock
                    &&& request.data@ == msg.data@
                    &&& last_block@ == tip(chain_view(old(blockchain)@))
                }
            },
            Comm::NewBlock => match judge_block(msg.data@, chain_view(old(blockchain)@)) {
                Offer::Malformed => reaction matches Reaction::Failed(Failure::Decode),
                Offer::Stale => reaction is Nothing,
                Offer::Refused(e) => reaction matches Reaction::Failed(fail) && fail
                    == Failure::Verification(e),
                Offer::Fits(block) => {
                    ||| {
                        &&& reaction matches Reaction::Failed(Failure::ControlClosed)
                        &&& final(blockchain)@ == old(blockchain)@
                    }
                    ||| {
                        &&& reaction matches Reaction::Multicast(out)
                        &&& out.command == Comm::Accepted
                        &&& out.data@ == enc_block(block)
                        &&& chain_view(final(blockchain)@) == chain_view(old(blockchain)@).push(
                            block,
                        )
                    }
                },
            },
            Comm::Blockchain => match judge_chain(msg.data@, chain_view(old(blockchain)@)) {
                Err(e) => reaction matches Reaction::Failed(fail) && fail == e,
                Ok(offered) => reaction is ChainReplaced && chain_view(final(blockchain)@)
                    == offered,
            },
            Comm::Broadcast => {
                &&& reaction matches Reaction::Multicast(out)
                &&& out.command == Comm::Blockchain
                &&& out.data@ == enc_chain(chain_view(old(blockchain)@))
            },
            Comm::PrintChain => reaction is PrintChain,
            Comm::CalcContract => {
                &&& calc_request(msg.data@, chain_view(old(blockchain)@)) matches Err(e)
                    ==> reaction matches Reaction::Failed(fail) && fail == e
                &&& forall|arith: spec_fn(char, u64, u64) -> u64|
                    computes(f, arith) ==> match #[trigger] calc_reply(
                        arith,
                        msg.data@,
                        chain_view(old(blockchain)@),
                    ) {
                        Err(e) => reaction matches Reaction::Failed(fail) && fail == e,
                        Ok(payload) => {
                            &&& reaction matches Reaction::Loopback(out)
                            &&& out.command == Comm::DataToBlock
                            &&& out.data@ == payload
                        },
                    }
            },
            Comm::Accepted | Comm::Rejected | Comm::EndMining => reaction is Nothing,
        },
{
    let ghost before = chain_view(blockchain@);
    match msg.command {
        Comm::DataToBlock => {
            if *is_miner_running {
                *is_miner_running = !miner_finished;
                if *is_miner_running {
                    assert(chain_after(before, msg.command, msg.data@, true) == before);
                    return Reaction::Nothing;
                }
            }
            let (tx, rx) = new_control_channel();
            *tx_mpmc = tx;
            *rx_mpmc = rx;
            *is_miner_running = true;
            assert(chain_after(before, msg.command, msg.data@, true) == before);
            Reaction::StartMiner { last_block: last_block(blockchain), request: msg }
        },
        Comm::Broadcast => {
            assert(chain_after(before, msg.command, msg.data@, true) == before);
            Reaction::Multicast(broadcast_chain(blockchain))
        },
        Comm::NewBlock => {
            let res = handle_new_block(&msg, blockchain, &*tx_mpmc);
            proof {
                let after = chain_view(blockchain@);
                if after == before {
                    assert(after == chain_after(before, msg.command, msg.data@, false));
                } else {
                    assert(after == chain_after(before, msg.command, msg.data@, true));
                }
            }
            match res {
                Ok(Some(out)) => Reaction::Multicast(out),
                Ok(None) => Reaction::Nothing,
                Err(e) => Reaction::Failed(e),
            }
        },
        Comm::PrintChain => {
            assert(chain_after(before, msg.command, msg.data@, true) == before);
            Reaction::PrintChain
        },
        Comm::Blockchain => {
            match handle_incoming_blockchain(&msg, blockchain) {
                Ok(chain) => {
                    let worker_told = send_control(&*tx_mpmc, end_mining());
                    *blockchain = chain;
                    assert(chain_view(blockchain@) == chain_after(
                        before,
                        msg.command,
                        msg.data@,
                        true,
                    ));
                    Reaction::ChainReplaced { worker_told }
                },
                Err(e) => {
                    assert(chain_after(before, msg.command, msg.data@, true) == before);
                    Reaction::Failed(e)
                },
            }
        },
        Comm::CalcContract => {
            assert(chain_after(before, msg.command, msg.data@, true) == before);
            match handle_calc_contract(&msg, blockchain, f) {
                Ok(out) => Reaction::Loopback(out),
                Err(e) => Reaction::Failed(e),
            }
        },
        _ => {
            assert(chain_after(before, msg.command, msg.data@, true) == before);
            Reaction::Nothing
        },
    }
}

} // verus!
