//! Reading values from their layout.

use crate::datatypes::{chain_view, Block, BlockData, Car, ContractResult, RevPolish, Vin};
use crate::wire::layout::{
    dec_block, dec_block_data, dec_car, dec_chain, dec_char, dec_contract, dec_contract_result,
    dec_each, dec_hash, dec_numbers, dec_rev_polish, dec_string, dec_u32, dec_u64, dec_vin,
};
use vstd::prelude::*;
use vstd::string::StrSliceExecFns;
use vstd::utf8::*;

verus! {

/// Once reading items fails, reading more of them fails too.
pub proof fn lemma_dec_each_fails<T>(
    dec: spec_fn(Seq<u8>, int) -> Option<(T, int)>,
    bytes: Seq<u8>,
    pos: int,
    count: nat,
    more: nat,
)
    requires
        dec_each(dec, bytes, pos, count) is None,
        count <= more,
    ensures
        dec_each(dec, bytes, pos, more) is None,
    decreases more,
{
    if count < more {
        lemma_dec_each_fails(dec, bytes, pos, count, (more - 1) as nat);
    }
}

/// Whether an executable reader gave what the layout says.
pub open spec fn read_is<T>(got: Option<(T, usize)>, want: Option<(T, int)>) -> bool {
    match got {
        Some((value, next)) => want == Some((value, next as int)),
        None => want is None,
    }
}

/// Whether an executable reader gave a value whose view is what the layout
/// says.
pub open spec fn read_views<T: View>(got: Option<(T, usize)>, want: Option<(T::V, int)>) -> bool {
    match got {
        Some((value, next)) => want == Some((value@, next as int)),
        None => want is None,
    }
}

/// `String::from_utf8`: the text whose UTF-8 form is `bytes`, or nothing
/// where `bytes` is not valid UTF-8.
#[verifier::external_body]
pub(crate) fn text_from_utf8(bytes: Vec<u8>) -> (text: Option<String>)
    ensures
        match text {
            Some(s) => encode_utf8(s@) == bytes@,
            None => !valid_utf8(bytes@),
        },
{
    String::from_utf8(bytes).ok()
}

/// The bytes of `bytes` from `from` up to `to`.
fn copy_range(bytes: &[u8], from: usize, to: usize) -> (out: Vec<u8>)
    requires
        from <= to <= bytes@.len(),
    ensures
        out@ == bytes@.subrange(from as int, to as int),
{
    let mut out: Vec<u8> = Vec::new();
    let mut i: usize = from;
    while i < to
        invariant
            from <= i <= to <= bytes@.len(),
            out@ == bytes@.subrange(from as int, i as int),
        decreases to - i,
    {
        out.push(bytes[i]);
        i += 1;
        assert(out@ =~= bytes@.subrange(from as int, i as int));
    }
    out
}

/// Reads a 32-bit integer at `pos`.
pub(crate) fn take_u32(bytes: &[u8], pos: usize) -> (res: Option<(u32, usize)>)
    ensures
        read_is(res, dec_u32(bytes@, pos as int)),
        res matches Some((_, next)) ==> next == pos + 4 && next <= bytes@.len(),
{
    reveal(dec_u32);
    let len: usize = bytes.len();
    if pos > len || len - pos < 4 {
        return None;
    }
    let value: u32 = bytes[pos] as u32 + 0x100 * (bytes[pos + 1] as u32) + 0x1_0000 * (bytes[pos
        + 2] as u32) + 0x100_0000 * (bytes[pos + 3] as u32);
    Some((value, pos + 4))
}

/// Reads a 64-bit integer at `pos`.
pub(crate) fn take_u64(bytes: &[u8], pos: usize) -> (res: Option<(u64, usize)>)
    ensures
        read_is(res, dec_u64(bytes@, pos as int)),
        res matches Some((_, next)) ==> next == pos + 8 && next <= bytes@.len(),
{
    reveal(dec_u64);
    let len: usize = bytes.len();
    if pos > len || len - pos < 8 {
        return None;
    }
    let value: u64 = bytes[pos] as u64 + 0x100 * (bytes[pos + 1] as u64) + 0x1_0000 * (bytes[pos
        + 2] as u64) + 0x100_0000 * (bytes[pos + 3] as u64) + 0x1_0000_0000 * (bytes[pos
        + 4] as u64) + 0x100_0000_0000 * (bytes[pos + 5] as u64) + 0x1_0000_0000_0000 * (bytes[pos
        + 6] as u64) + 0x100_0000_0000_0000 * (bytes[pos + 7] as u64);
    Some((value, pos + 8))
}

/// Reads the thirty-two bytes of a hash at `pos`.
fn take_hash(bytes: &[u8], pos: usize) -> (res: Option<([u8; 32], usize)>)
    ensures
        match res {
            Some((hash, next)) => dec_hash(bytes@, pos as int) == Some((hash@, next as int)),
            None => dec_hash(bytes@, pos as int) is None,
        },
{
    let len: usize = bytes.len();
    if pos > len || len - pos < 32 {
        return None;
    }
    let mut hash: [u8; 32] = [0u8; 32];
    let mut i: usize = 0;
    while i < 32
        invariant
            i <= 32,
            len == bytes@.len(),
            pos + 32 <= len,
            forall|j: int| 0 <= j < i ==> hash@[j] == bytes@[pos + j],
        decreases 32 - i,
    {
        hash[i] = bytes[pos + i];
        i += 1;
    }
    assert(hash@ =~= bytes@.subrange(pos as int, pos + 32));
    Some((hash, pos + 32))
}

/// Reads a string at `pos`.
fn take_string(bytes: &[u8], pos: usize) -> (res: Option<(String, usize)>)
    ensures
        read_views(res, dec_string(bytes@, pos as int)),
{
    match take_u64(bytes, pos) {
        None => None,
        Some((n, p)) => {
            if n > (bytes.len() - p) as u64 {
                return None;
            }
            let end: usize = p + n as usize;
            let chunk = copy_range(bytes, p, end);
            match text_from_utf8(chunk) {
                None => None,
                Some(text) => {
                    proof {
                        encode_utf8_valid_utf8(text@);
                        encode_utf8_decode_utf8(text@);
                    }
                    Some((text, end))
                },
            }
        },
    }
}

/// Reads a character at `pos`.
fn take_char(bytes: &[u8], pos: usize) -> (res: Option<(char, usize)>)
    ensures
        read_is(res, dec_char(bytes@, pos as int)),
{
    let len: usize = bytes.len();
    if pos >= len {
        return None;
    }
    let first: u8 = bytes[pos];
    let width: usize = if first <= 0x7f {
        1
    } else if 0xc2 <= first && first <= 0xdf {
        2
    } else if 0xe0 <= first && first <= 0xef {
        3
    } else if 0xf0 <= first && first <= 0xf4 {
        4
    } else {
        0
    };
    if width == 0 || len - pos < width {
        return None;
    }
    let chunk = copy_range(bytes, pos, pos + width);
    match text_from_utf8(chunk) {
        None => None,
        Some(text) => {
            proof {
                encode_utf8_valid_utf8(text@);
                encode_utf8_decode_utf8(text@);
                if text@.len() == 0 {
                    assert(encode_utf8(text@).len() == 0);
                }
            }
            let c = text.as_str().get_char(0);
            Some((c, pos + width))
        },
    }
}

/// Reads a vehicle identification number at `pos`.
fn take_vin(bytes: &[u8], pos: usize) -> (res: Option<(Vin, usize)>)
    ensures
        read_views(res, dec_vin(bytes@, pos as int)),
{
    let (wmi, at_b) = match take_string(bytes, pos) {
        None => { return None; },
        Some(r) => r,
    };
    let (vds, at_c) = match take_string(bytes, at_b) {
        None => { return None; },
        Some(r) => r,
    };
    let (vis, at_d) = match take_string(bytes, at_c) {
        None => { return None; },
        Some(r) => r,
    };
    Some((Vin { wmi, vds, vis }, at_d))
}

/// Reads a car record at `pos`.
fn take_car(bytes: &[u8], pos: usize) -> (res: Option<(Car, usize)>)
    ensures
        read_views(res, dec_car(bytes@, pos as int)),
{
    let (owner_name, at_b) = match take_string(bytes, pos) {
        None => { return None; },
        Some(r) => r,
    };
    let (owner_surname, at_c) = match take_string(bytes, at_b) {
        None => { return None; },
        Some(r) => r,
    };
    let (distance_traveled, at_d) = match take_u32(bytes, at_c) {
        None => { return None; },
        Some(r) => r,
    };
    let (vin_number, at_e) = match take_vin(bytes, at_d) {
        None => { return None; },
        Some(r) => r,
    };
    Some((Car { owner_name, owner_surname, distance_traveled, vin_number }, at_e))
}

/// Reads an item of a contract at `pos`.
fn take_rev_polish(bytes: &[u8], pos: usize) -> (res: Option<(RevPolish, usize)>)
    ensures
        read_is(res, dec_rev_polish(bytes@, pos as int)),
{
    let (tag, p) = match take_u32(bytes, pos) {
        None => { return None; },
        Some(r) => r,
    };
    if tag == 0 {
        match take_u64(bytes, p) {
            None => None,
            Some((bits, q)) => Some((RevPolish::Number(bits), q)),
        }
    } else if tag == 1 {
        match take_char(bytes, p) {
            None => None,
            Some((c, q)) => Some((RevPolish::Operation(c), q)),
        }
    } else if tag == 2 {
        Some((RevPolish::Arg, p))
    } else {
        None
    }
}

/// Reads a contract at `pos`.
fn take_contract(bytes: &[u8], pos: usize) -> (res: Option<(Vec<RevPolish>, usize)>)
    ensures
        read_views(res, dec_contract(bytes@, pos as int)),
{
    let dec = Ghost(|b: Seq<u8>, p: int| dec_rev_polish(b, p));
    let (count, start) = match take_u64(bytes, pos) {
        None => { return None; },
        Some(r) => r,
    };
    let mut items: Vec<RevPolish> = Vec::new();
    let mut at: usize = start;
    let mut i: u64 = 0;
    while i < count
        invariant
            i <= count,
            dec@ == (|b: Seq<u8>, p: int| dec_rev_polish(b, p)),
            dec_u64(bytes@, pos as int) == Some((count, start as int)),
            dec_each(dec@, bytes@, start as int, i as nat) == Some((items@, at as int)),
        decreases count - i,
    {
        match take_rev_polish(bytes, at) {
            None => {
                proof {
                    lemma_dec_each_fails(dec@, bytes@, start as int, (i + 1) as nat, count as nat);
                }
                return None;
            },
            Some((item, next)) => {
                items.push(item);
                at = next;
                i += 1;
            },
        }
    }
    Some((items, at))
}

/// Reads a sequence of numbers at `pos`.
fn take_numbers(bytes: &[u8], pos: usize) -> (res: Option<(Vec<u64>, usize)>)
    ensures
        read_views(res, dec_numbers(bytes@, pos as int)),
{
    let dec = Ghost(|b: Seq<u8>, p: int| dec_u64(b, p));
    let (count, start) = match take_u64(bytes, pos) {
        None => { return None; },
        Some(r) => r,
    };
    let mut numbers: Vec<u64> = Vec::new();
    let mut at: usize = start;
    let mut i: u64 = 0;
    while i < count
        invariant
            i <= count,
            dec@ == (|b: Seq<u8>, p: int| dec_u64(b, p)),
            dec_u64(bytes@, pos as int) == Some((count, start as int)),
            dec_each(dec@, bytes@, start as int, i as nat) == Some((numbers@, at as int)),
        decreases count - i,
    {
        match take_u64(bytes, at) {
            None => {
                proof {
                    lemma_dec_each_fails(dec@, bytes@, start as int, (i + 1) as nat, count as nat);
                }
                return None;
            },
            Some((bits, next)) => {
                numbers.push(bits);
                at = next;
                i += 1;
            },
        }
    }
    Some((numbers, at))
}

/// Reads the record of a contract's value at `pos`.
fn take_contract_result(bytes: &[u8], pos: usize) -> (res: Option<(ContractResult, usize)>)
    ensures
        read_views(res, dec_contract_result(bytes@, pos as int)),
{
    let (block_id, at_b) = match take_u32(bytes, pos) {
        None => { return None; },
        Some(r) => r,
    };
    let (result, at_c) = match take_u64(bytes, at_b) {
        None => { return None; },
        Some(r) => r,
    };
    let (args, at_d) = match take_numbers(bytes, at_c) {
        None => { return None; },
        Some(r) => r,
    };
    Some((ContractResult { block_id, result, args }, at_d))
}

/// Reads what a block records at `pos`.
fn take_block_data(bytes: &[u8], pos: usize) -> (res: Option<(BlockData, usize)>)
    ensures
        read_views(res, dec_block_data(bytes@, pos as int)),
{
    let (tag, p) = match take_u32(bytes, pos) {
        None => { return None; },
        Some(r) => r,
    };
    if tag == 0 {
        match take_contract(bytes, p) {
            None => None,
            Some((items, q)) => Some((BlockData::Contract(items), q)),
        }
    } else if tag == 1 {
        match take_car(bytes, p) {
            None => None,
            Some((car, q)) => Some((BlockData::Car(car), q)),
        }
    } else if tag == 2 {
        match take_contract_result(bytes, p) {
            None => None,
            Some((res, q)) => Some((BlockData::ContractResult(res), q)),
        }
    } else {
        None
    }
}

/// Reads a block at `pos`.
fn take_block(bytes: &[u8], pos: usize) -> (res: Option<(Block, usize)>)
    ensures
        read_views(res, dec_block(bytes@, pos as int)),
{
    let (hash, at_b) = match take_hash(bytes, pos) {
        None => { return None; },
        Some(r) => r,
    };
    let (id, at_c) = match take_u32(bytes, at_b) {
        None => { return None; },
        Some(r) => r,
    };
    let (prev_hash, at_d) = match take_hash(bytes, at_c) {
        None => { return None; },
        Some(r) => r,
    };
    let (nonce, at_e) = match take_u32(bytes, at_d) {
        None => { return None; },
        Some(r) => r,
    };
    let (data, at_f) = match take_block_data(bytes, at_e) {
        None => { return None; },
        Some(r) => r,
    };
    let (mined_by, at_g) = match take_string(bytes, at_f) {
        None => { return None; },
        Some(r) => r,
    };
    Some((Block { hash, id, prev_hash, nonce, data, mined_by }, at_g))
}

/// What a payload holds where it begins with the layout of a block's
/// record. Bytes behind the layout are not looked at.
pub fn decode_block_data(bytes: &[u8]) -> (res: Option<BlockData>)
    ensures
        match res {
            Some(data) => dec_block_data(bytes@, 0) matches Some((view, _)) && view == data@,
            None => dec_block_data(bytes@, 0) is None,
        },
{
    match take_block_data(bytes, 0) {
        None => None,
        Some((data, _)) => Some(data),
    }
}

/// The block that a payload holds where it begins with the layout of a
/// block. Bytes behind the layout are not looked at.
pub fn decode_block(bytes: &[u8]) -> (res: Option<Block>)
    ensures
        match res {
            Some(block) => dec_block(bytes@, 0) matches Some((view, _)) && view == block@,
            None => dec_block(bytes@, 0) is None,
        },
{
    match take_block(bytes, 0) {
        None => None,
        Some((block, _)) => Some(block),
    }
}

/// The chain that a payload holds where it begins with the layout of a
/// chain. Bytes behind the layout are not looked at.
pub fn decode_chain(bytes: &[u8]) -> (res: Option<Vec<Block>>)
    ensures
        match res {
            Some(chain) => dec_chain(bytes@, 0) matches Some((views, _)) && views == chain_view(
                chain@,
            ),
            None => dec_chain(bytes@, 0) is None,
        },
{
    let dec = Ghost(|b: Seq<u8>, p: int| dec_block(b, p));
    let (count, start) = match take_u64(bytes, 0) {
        None => { return None; },
        Some(r) => r,
    };
    let mut chain: Vec<Block> = Vec::new();
    let mut at: usize = start;
    let mut i: u64 = 0;
    while i < count
        invariant
            i <= count,
            dec@ == (|b: Seq<u8>, p: int| dec_block(b, p)),
            dec_u64(bytes@, 0) == Some((count, start as int)),
            dec_each(dec@, bytes@, start as int, i as nat) == Some(
                (chain_view(chain@), at as int),
            ),
        decreases count - i,
    {
        match take_block(bytes, at) {
            None => {
                proof {
                    lemma_dec_each_fails(dec@, bytes@, start as int, (i + 1) as nat, count as nat);
                }
                return None;
            },
            Some((block, next)) => {
                proof {
                    assert(chain_view(chain@.push(block)) =~= chain_view(chain@).push(block@));
                }
                chain.push(block);
                at = next;
                i += 1;
            },
        }
    }
    Some(chain)
}

/// The numbers that a payload holds where it begins with the layout of a
/// sequence of numbers. Bytes behind the layout are not looked at.
pub fn decode_numbers(bytes: &[u8]) -> (res: Option<Vec<u64>>)
    ensures
        match res {
            Some(numbers) => dec_numbers(bytes@, 0) matches Some((view, _)) && view == numbers@,
            None => dec_numbers(bytes@, 0) is None,
        },
{
    match take_numbers(bytes, 0) {
        None => None,
        Some((numbers, _)) => Some(numbers),
    }
}

} // verus!
