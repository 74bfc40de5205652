//! The layout of each kind of value, in ghost code: its bytes (`enc_*`)
//! and the reading of bytes from a position (`dec_*`), which gives the value
//! read and the position behind it.

use crate::datatypes::{
    BlockDataView, BlockView, CarView, ContractResultView, RevPolish, VinView,
};
use vstd::prelude::*;
use vstd::utf8::*;

verus! {

/// A 32-bit integer, least significant byte first.
pub open spec fn enc_u32(x: u32) -> Seq<u8> {
    seq![
        (x % 256) as u8,
        (x / 0x100 % 256) as u8,
        (x / 0x1_0000 % 256) as u8,
        (x / 0x100_0000 % 256) as u8,
    ]
}

/// A 32-bit integer, most significant byte first.
pub open spec fn enc_be32(x: u32) -> Seq<u8> {
    seq![
        (x / 0x100_0000 % 256) as u8,
        (x / 0x1_0000 % 256) as u8,
        (x / 0x100 % 256) as u8,
        (x % 256) as u8,
    ]
}

/// A 64-bit integer, least significant byte first.
pub open spec fn enc_u64(x: u64) -> Seq<u8> {
    seq![
        (x % 256) as u8,
        (x / 0x100 % 256) as u8,
        (x / 0x1_0000 % 256) as u8,
        (x / 0x100_0000 % 256) as u8,
        (x / 0x1_0000_0000 % 256) as u8,
        (x / 0x100_0000_0000 % 256) as u8,
        (x / 0x1_0000_0000_0000 % 256) as u8,
        (x / 0x100_0000_0000_0000 % 256) as u8,
    ]
}

/// A string: the length of its UTF-8 form, then that form.
pub open spec fn enc_string(s: Seq<char>) -> Seq<u8> {
    enc_u64(encode_utf8(s).len() as u64) + encode_utf8(s)
}

/// A character: its UTF-8 form, one to four bytes.
pub open spec fn enc_char(c: char) -> Seq<u8> {
    encode_scalar(c as u32)
}

/// The 32-bit integer read at `pos`, with the position behind it.
#[verifier::opaque]
pub open spec fn dec_u32(bytes: Seq<u8>, pos: int) -> Option<(u32, int)> {
    if 0 <= pos && pos + 4 <= bytes.len() {
        Some(
            (
                (bytes[pos] as int + 0x100 * (bytes[pos + 1] as int) + 0x1_0000 * (bytes[pos
                    + 2] as int) + 0x100_0000 * (bytes[pos + 3] as int)) as u32,
                pos + 4,
            ),
        )
    } else {
        None
    }
}

/// The 64-bit integer read at `pos`, with the position behind it.
#[verifier::opaque]
pub open spec fn dec_u64(bytes: Seq<u8>, pos: int) -> Option<(u64, int)> {
    if 0 <= pos && pos + 8 <= bytes.len() {
        Some(
            (
                (bytes[pos] as int + 0x100 * (bytes[pos + 1] as int) + 0x1_0000 * (bytes[pos
                    + 2] as int) + 0x100_0000 * (bytes[pos + 3] as int) + 0x1_0000_0000 * (
                bytes[pos + 4] as int) + 0x100_0000_0000 * (bytes[pos + 5] as int)
                    + 0x1_0000_0000_0000 * (bytes[pos + 6] as int) + 0x100_0000_0000_0000 * (
                bytes[pos + 7] as int)) as u64,
                pos + 8,
            ),
        )
    } else {
        None
    }
}

/// The thirty-two bytes of a hash read at `pos`.
pub open spec fn dec_hash(bytes: Seq<u8>, pos: int) -> Option<(Seq<u8>, int)> {
    if 0 <= pos && pos + 32 <= bytes.len() {
        Some((bytes.subrange(pos, pos + 32), pos + 32))
    } else {
        None
    }
}

/// The string read at `pos`: a length, then as many bytes of valid UTF-8.
pub open spec fn dec_string(bytes: Seq<u8>, pos: int) -> Option<(Seq<char>, int)> {
    match dec_u64(bytes, pos) {
        None => None,
        Some((n, p)) => if p + n <= bytes.len() && valid_utf8(bytes.subrange(p, p + n)) {
            Some((decode_utf8(bytes.subrange(p, p + n)), p + n))
        } else {
            None
        },
    }
}

/// How many bytes the UTF-8 form of a character has, judged by its first
/// byte; zero for a byte that cannot begin one.
pub open spec fn char_width(first: u8) -> int {
    if first <= 0x7f {
        1
    } else if 0xc2 <= first <= 0xdf {
        2
    } else if 0xe0 <= first <= 0xef {
        3
    } else if 0xf0 <= first <= 0xf4 {
        4
    } else {
        0
    }
}

/// The character read at `pos`: as many bytes as its first byte announces,
/// which must be valid UTF-8.
pub open spec fn dec_char(bytes: Seq<u8>, pos: int) -> Option<(char, int)> {
    if 0 <= pos < bytes.len() {
        let width = char_width(bytes[pos]);
        if width != 0 && pos + width <= bytes.len() && valid_utf8(
            bytes.subrange(pos, pos + width),
        ) {
            Some((decode_utf8(bytes.subrange(pos, pos + width))[0], pos + width))
        } else {
            None
        }
    } else {
        None
    }
}

/// The items of a sequence one after the other, without their number.
pub open spec fn enc_each<T>(enc: spec_fn(T) -> Seq<u8>, items: Seq<T>) -> Seq<u8>
    decreases items.len(),
{
    if items.len() == 0 {
        Seq::empty()
    } else {
        enc_each(enc, items.drop_last()) + enc(items.last())
    }
}

/// A sequence: the number of its items, then the items.
pub open spec fn enc_seq<T>(enc: spec_fn(T) -> Seq<u8>, items: Seq<T>) -> Seq<u8> {
    enc_u64(items.len() as u64) + enc_each(enc, items)
}

pub open spec fn enc_vin(vin: VinView) -> Seq<u8> {
    enc_string(vin.wmi) + enc_string(vin.vds) + enc_string(vin.vis)
}

pub open spec fn enc_car(car: CarView) -> Seq<u8> {
    enc_string(car.owner_name) + enc_string(car.owner_surname) + enc_u32(car.distance_traveled)
        + enc_vin(car.vin_number)
}

/// An item of a contract: tag 0 and the number's bits, tag 1 and the
/// operation's character, or tag 2 for an argument.
pub open spec fn enc_rev_polish(item: RevPolish) -> Seq<u8> {
    match item {
        RevPolish::Number(bits) => enc_u32(0) + enc_u64(bits),
        RevPolish::Operation(c) => enc_u32(1) + enc_char(c),
        RevPolish::Arg => enc_u32(2),
    }
}

pub open spec fn enc_contract(items: Seq<RevPolish>) -> Seq<u8> {
    enc_seq(|item: RevPolish| enc_rev_polish(item), items)
}

pub open spec fn enc_numbers(numbers: Seq<u64>) -> Seq<u8> {
    enc_seq(|bits: u64| enc_u64(bits), numbers)
}

pub open spec fn enc_contract_result(res: ContractResultView) -> Seq<u8> {
    enc_u32(res.block_id) + enc_u64(res.result) + enc_numbers(res.args)
}

/// What a block records: tag 0 and a contract, tag 1 and a car, or tag 2 and
/// a contract's result.
pub open spec fn enc_block_data(data: BlockDataView) -> Seq<u8> {
    match data {
        BlockDataView::Contract(items) => enc_u32(0) + enc_contract(items),
        BlockDataView::Car(car) => enc_u32(1) + enc_car(car),
        BlockDataView::ContractResult(res) => enc_u32(2) + enc_contract_result(res),
    }
}

pub open spec fn enc_block(block: BlockView) -> Seq<u8> {
    block.hash + enc_u32(block.id) + block.prev_hash + enc_u32(block.nonce) + enc_block_data(
        block.data,
    ) + enc_string(block.mined_by)
}

pub open spec fn enc_chain(chain: Seq<BlockView>) -> Seq<u8> {
    enc_seq(|block: BlockView| enc_block(block), chain)
}

/// The items read one after the other from `pos`, `count` of them.
pub open spec fn dec_each<T>(
    dec: spec_fn(Seq<u8>, int) -> Option<(T, int)>,
    bytes: Seq<u8>,
    pos: int,
    count: nat,
) -> Option<(Seq<T>, int)>
    decreases count,
{
    if count == 0 {
        Some((Seq::empty(), pos))
    } else {
        match dec_each(dec, bytes, pos, (count - 1) as nat) {
            None => None,
            Some((items, p)) => match dec(bytes, p) {
                None => None,
                Some((item, q)) => Some((items.push(item), q)),
            },
        }
    }
}

/// The sequence read at `pos`: the number of its items, then the items.
pub open spec fn dec_seq<T>(
    dec: spec_fn(Seq<u8>, int) -> Option<(T, int)>,
    bytes: Seq<u8>,
    pos: int,
) -> Option<(Seq<T>, int)> {
    match dec_u64(bytes, pos) {
        None => None,
        Some((count, p)) => dec_each(dec, bytes, p, count as nat),
    }
}

pub open spec fn dec_vin(bytes: Seq<u8>, pos: int) -> Option<(VinView, int)> {
    match dec_string(bytes, pos) {
        None => None,
        Some((wmi, at_b)) => match dec_string(bytes, at_b) {
            None => None,
            Some((vds, at_c)) => match dec_string(bytes, at_c) {
                None => None,
                Some((vis, at_d)) => Some((VinView { wmi, vds, vis }, at_d)),
            },
        },
    }
}

pub open spec fn dec_car(bytes: Seq<u8>, pos: int) -> Option<(CarView, int)> {
    match dec_string(bytes, pos) {
        None => None,
        Some((owner_name, at_b)) => match dec_string(bytes, at_b) {
            None => None,
            Some((owner_surname, at_c)) => match dec_u32(bytes, at_c) {
                None => None,
                Some((distance_traveled, at_d)) => match dec_vin(bytes, at_d) {
                    None => None,
                    Some((vin_number, at_e)) => Some(
                        (
                            CarView { owner_name, owner_surname, distance_traveled, vin_number },
                            at_e,
                        ),
                    ),
                },
            },
        },
    }
}

pub open spec fn dec_rev_polish(bytes: Seq<u8>, pos: int) -> Option<(RevPolish, int)> {
    match dec_u32(bytes, pos) {
        None => None,
        Some((tag, p)) => if tag == 0 {
            match dec_u64(bytes, p) {
                None => None,
                Some((bits, q)) => Some((RevPolish::Number(bits), q)),
            }
        } else if tag == 1 {
            match dec_char(bytes, p) {
                None => None,
                Some((c, q)) => Some((RevPolish::Operation(c), q)),
            }
        } else if tag == 2 {
            Some((RevPolish::Arg, p))
        } else {
            None
        },
    }
}

pub open spec fn dec_contract(bytes: Seq<u8>, pos: int) -> Option<(Seq<RevPolish>, int)> {
    dec_seq(|b: Seq<u8>, p: int| dec_rev_polish(b, p), bytes, pos)
}

pub open spec fn dec_numbers(bytes: Seq<u8>, pos: int) -> Option<(Seq<u64>, int)> {
    dec_seq(|b: Seq<u8>, p: int| dec_u64(b, p), bytes, pos)
}

pub open spec fn dec_contract_result(bytes: Seq<u8>, pos: int) -> Option<
    (ContractResultView, int),
> {
    match dec_u32(bytes, pos) {
        None => None,
        Some((block_id, at_b)) => match dec_u64(bytes, at_b) {
            None => None,
            Some((result, at_c)) => match dec_numbers(bytes, at_c) {
                None => None,
                Some((args, at_d)) => Some((ContractResultView { block_id, result, args }, at_d)),
            },
        },
    }
}

pub open spec fn dec_block_data(bytes: Seq<u8>, pos: int) -> Option<(BlockDataView, int)> {
    match dec_u32(bytes, pos) {
        None => None,
        Some((tag, p)) => if tag == 0 {
            match dec_contract(bytes, p) {
                None => None,
                Some((items, q)) => Some((BlockDataView::Contract(items), q)),
            }
        } else if tag == 1 {
            match dec_car(bytes, p) {
                None => None,
                Some((car, q)) => Some((BlockDataView::Car(car), q)),
            }
        } else if tag == 2 {
            match dec_contract_result(bytes, p) {
                None => None,
                Some((res, q)) => Some((BlockDataView::ContractResult(res), q)),
            }
        } else {
            None
        },
    }
}

pub open spec fn dec_block(bytes: Seq<u8>, pos: int) -> Option<(BlockView, int)> {
    match dec_hash(bytes, pos) {
        None => None,
        Some((hash, at_b)) => match dec_u32(bytes, at_b) {
            None => None,
            Some((id, at_c)) => match dec_hash(bytes, at_c) {
                None => None,
                Some((prev_hash, at_d)) => match dec_u32(bytes, at_d) {
                    None => None,
                    Some((nonce, at_e)) => match dec_block_data(bytes, at_e) {
                        None => None,
                        Some((data, at_f)) => match dec_string(bytes, at_f) {
                            None => None,
                            Some((mined_by, at_g)) => Some(
                                (BlockView { hash, id, prev_hash, nonce, data, mined_by }, at_g),
                            ),
                        },
                    },
                },
            },
        },
    }
}

pub open spec fn dec_chain(bytes: Seq<u8>, pos: int) -> Option<(Seq<BlockView>, int)> {
    dec_seq(|b: Seq<u8>, p: int| dec_block(b, p), bytes, pos)
}

/// Whether a text can be written: the length of its UTF-8 form fits in 64
/// bits.
pub open spec fn text_fits(text: Seq<char>) -> bool {
    encode_utf8(text).len() <= u64::MAX
}

/// Whether a car's identification number can be written.
pub open spec fn vin_fits(vin: VinView) -> bool {
    text_fits(vin.wmi) && text_fits(vin.vds) && text_fits(vin.vis)
}

/// Whether a car record can be written.
pub open spec fn car_fits(car: CarView) -> bool {
    text_fits(car.owner_name) && text_fits(car.owner_surname) && vin_fits(car.vin_number)
}

/// Whether what a block records can be written: each text and each sequence
/// in it has a length that fits in 64 bits.
pub open spec fn data_fits(data: BlockDataView) -> bool {
    match data {
        BlockDataView::Contract(items) => items.len() <= u64::MAX,
        BlockDataView::Car(car) => car_fits(car),
        BlockDataView::ContractResult(res) => res.args.len() <= u64::MAX,
    }
}

/// Whether a block can be written: its hashes have thirty-two bytes, and its
/// record and its miner's label fit.
pub open spec fn block_fits(block: BlockView) -> bool {
    &&& block.hash.len() == 32
    &&& block.prev_hash.len() == 32
    &&& data_fits(block.data)
    &&& text_fits(block.mined_by)
}

/// Whether a chain can be written.
pub open spec fn chain_fits(chain: Seq<BlockView>) -> bool {
    chain.len() <= u64::MAX && forall|i: int| 0 <= i < chain.len() ==> block_fits(#[trigger] chain[i])
}

} // verus!
