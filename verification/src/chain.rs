//! What it is for a chain to be well formed, and how an offered chain is
//! judged.

use crate::datatypes::{zero_hash, BlockView};
use crate::error::VerifyError;
use crate::hashing::{check_broadcasted_block, sealed};
use vstd::prelude::*;

verus! {

/// Whether the block at place `i` of `chain` is in order: its id is its
/// place, it names the hash of the block before it (thirty-two zero bytes at
/// place 0), and it is sealed.
pub open spec fn link_ok(chain: Seq<BlockView>, i: int) -> bool {
    &&& chain[i].id == i
    &&& chain[i].prev_hash == (if i == 0 {
        zero_hash()
    } else {
        chain[i - 1].hash
    })
    &&& sealed(chain[i])
}

/// Whether every block of `chain` is in order.
pub open spec fn well_formed(chain: Seq<BlockView>) -> bool {
    forall|i: int| 0 <= i < chain.len() ==> link_ok(chain, i)
}

/// What is wrong with the block at place `i` of an offered chain, if
/// anything: an id that is not its place, or what the check of a broadcasted
/// block finds.
pub open spec fn fault_at(chain: Seq<BlockView>, i: int) -> Option<VerifyError> {
    if chain[i].id != i {
        Some(VerifyError::IdGap)
    } else {
        match check_broadcasted_block(chain[i], chain) {
            Err(e) => Some(e),
            Ok(_) => None,
        }
    }
}

/// The first fault among the first `upto` blocks of an offered chain.
pub open spec fn first_fault(chain: Seq<BlockView>, upto: nat) -> Option<VerifyError>
    decreases upto,
{
    if upto == 0 {
        None
    } else {
        match first_fault(chain, (upto - 1) as nat) {
            Some(e) => Some(e),
            None => fault_at(chain, upto - 1),
        }
    }
}

/// A block of an offered chain is without fault exactly when it is in order.
pub proof fn lemma_fault_at(chain: Seq<BlockView>, i: int)
    requires
        0 <= i < chain.len(),
    ensures
        fault_at(chain, i) is None <==> link_ok(chain, i),
{
}

/// The first `upto` blocks are without fault exactly when each is in order.
pub proof fn lemma_first_fault(chain: Seq<BlockView>, upto: nat)
    requires
        upto <= chain.len(),
    ensures
        first_fault(chain, upto) is None <==> forall|i: int| 0 <= i < upto ==> link_ok(chain, i),
    decreases upto,
{
    if upto > 0 {
        lemma_first_fault(chain, (upto - 1) as nat);
        lemma_fault_at(chain, upto - 1);
        if first_fault(chain, upto) is None {
            assert forall|i: int| 0 <= i < upto implies link_ok(chain, i) by {
                if i < upto - 1 {
                } else {
                    assert(i == upto - 1);
                }
            }
        } else {
            if first_fault(chain, (upto - 1) as nat) is None {
                assert(!link_ok(chain, upto - 1));
            }
        }
    }
}

/// An offered chain is without fault exactly when it is well formed.
pub proof fn lemma_faultless_is_well_formed(chain: Seq<BlockView>)
    ensures
        first_fault(chain, chain.len()) is None <==> well_formed(chain),
{
    lemma_first_fault(chain, chain.len());
}

/// The empty chain is well formed.
pub proof fn lemma_empty_is_well_formed()
    ensures
        well_formed(Seq::<BlockView>::empty()),
{
}

} // verus!
