//! The messages that a node offers to its peers.

use crate::datatypes::{chain_view, Block, Comm, Msg};
use crate::wire::{dec_chain, enc_chain, encode_chain};
use vstd::prelude::*;

verus! {

/// The multicast group that nodes and clients share, as the four parts of its
/// address.
pub const MULTICAST_GROUP: [u8; 4] = [239, 0, 0, 1];

/// The port of the group, on which every node listens.
pub const MULTICAST_PORT: u16 = 9000;

/// The port from which requests are sent.
pub const SENDER_PORT: u16 = 8000;

/// The number of bytes that a node sets aside for one datagram.
pub const DATAGRAM_SIZE: usize = 4096;

/// The number of seconds between two offers of the chain to the peers.
pub const BROADCAST_PERIOD: u64 = 60;

/// The `Blockchain` message that carries the whole chain, for the caller to
/// multicast. A peer that reads its payload finds the chain.
pub fn broadcast_chain(blockchain: &Vec<Block>) -> (msg: Msg)
    ensures
        msg.command == Comm::Blockchain,
        msg.data@ == enc_chain(chain_view(blockchain@)),
        dec_chain(msg.data@, 0) == Some((chain_view(blockchain@), msg.data@.len() as int)),
{
    Msg { command: Comm::Blockchain, data: encode_chain(blockchain) }
}

} // verus!
