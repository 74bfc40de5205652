//! Writing values in their layout.

use crate::datatypes::{chain_view, Block, BlockData, BlockView, Car, ContractResult, RevPolish, Vin};
use crate::wire::laws::{
    lemma_decode_encoded_block, lemma_decode_encoded_block_data, lemma_decode_encoded_chain,
    lemma_decode_encoded_numbers,
};
use crate::wire::layout::{
    block_fits, car_fits, chain_fits, data_fits, dec_block, dec_block_data, dec_chain,
    dec_numbers, enc_be32, enc_block, enc_block_data, enc_car, enc_chain, enc_char, enc_contract,
    enc_contract_result, enc_each, enc_numbers, enc_rev_polish, enc_string, enc_u32, enc_u64,
    enc_vin, text_fits, vin_fits,
};
use vstd::prelude::*;
use vstd::utf8::*;

verus! {

/// Appends the little-endian form of `x`.
pub(crate) fn put_u32(out: &mut Vec<u8>, x: u32)
    ensures
        final(out)@ == old(out)@ + enc_u32(x),
{
    out.push((x % 256) as u8);
    out.push((x / 0x100 % 256) as u8);
    out.push((x / 0x1_0000 % 256) as u8);
    out.push((x / 0x100_0000 % 256) as u8);
    assert(out@ =~= old(out)@ + enc_u32(x));
}

/// Appends the big-endian form of `x`.
pub(crate) fn put_be32(out: &mut Vec<u8>, x: u32)
    ensures
        final(out)@ == old(out)@ + enc_be32(x),
{
    out.push((x / 0x100_0000 % 256) as u8);
    out.push((x / 0x1_0000 % 256) as u8);
    out.push((x / 0x100 % 256) as u8);
    out.push((x % 256) as u8);
    assert(out@ =~= old(out)@ + enc_be32(x));
}

/// Appends the little-endian form of `x`.
pub(crate) fn put_u64(out: &mut Vec<u8>, x: u64)
    ensures
        final(out)@ == old(out)@ + enc_u64(x),
{
    out.push((x % 256) as u8);
    out.push((x / 0x100 % 256) as u8);
    out.push((x / 0x1_0000 % 256) as u8);
    out.push((x / 0x100_0000 % 256) as u8);
    out.push((x / 0x1_0000_0000 % 256) as u8);
    out.push((x / 0x100_0000_0000 % 256) as u8);
    out.push((x / 0x1_0000_0000_0000 % 256) as u8);
    out.push((x / 0x100_0000_0000_0000 % 256) as u8);
    assert(out@ =~= old(out)@ + enc_u64(x));
}

/// Appends `bytes` as they are.
pub(crate) fn put_bytes(out: &mut Vec<u8>, bytes: &[u8])
    ensures
        final(out)@ == old(out)@ + bytes@,
{
    let mut i: usize = 0;
    while i < bytes.len()
        invariant
            i <= bytes.len(),
            out@ == old(out)@ + bytes@.subrange(0, i as int),
        decreases bytes.len() - i,
    {
        out.push(bytes[i]);
        i += 1;
        assert(out@ =~= old(out)@ + bytes@.subrange(0, i as int));
    }
    assert(bytes@.subrange(0, bytes@.len() as int) =~= bytes@);
}

/// Appends a string with its length.
pub(crate) fn put_string(out: &mut Vec<u8>, s: &String)
    ensures
        final(out)@ == old(out)@ + enc_string(s@),
        text_fits(s@),
{
    let bytes = s.as_str().as_bytes();
    put_u64(out, bytes.len() as u64);
    put_bytes(out, bytes);
    assert(out@ =~= old(out)@ + enc_string(s@));
}

/// Appends the UTF-8 form of a character.
pub(crate) fn put_char(out: &mut Vec<u8>, c: char)
    ensures
        final(out)@ == old(out)@ + enc_char(c),
{
    let v: u32 = c as u32;
    proof {
        char_is_scalar(c);
    }
    if v <= 0x7f {
        out.push((v & 0x7F) as u8);
    } else if v <= 0x7ff {
        out.push(0xC0 | ((v >> 6) & 0x1F) as u8);
        out.push(0x80 | (v & 0x3F) as u8);
    } else if v <= 0xffff {
        out.push(0xE0 | ((v >> 12) & 0x0F) as u8);
        out.push(0x80 | ((v >> 6) & 0x3F) as u8);
        out.push(0x80 | (v & 0x3F) as u8);
    } else {
        out.push(0xF0 | ((v >> 18) & 0x7) as u8);
        out.push(0x80 | ((v >> 12) & 0x3F) as u8);
        out.push(0x80 | ((v >> 6) & 0x3F) as u8);
        out.push(0x80 | (v & 0x3F) as u8);
    }
    assert(out@ =~= old(out)@ + enc_char(c));
}

/// Appends a vehicle identification number.
fn put_vin(out: &mut Vec<u8>, vin: &Vin)
    ensures
        final(out)@ == old(out)@ + enc_vin(vin@),
        vin_fits(vin@),
{
    put_string(out, &vin.wmi);
    put_string(out, &vin.vds);
    put_string(out, &vin.vis);
    assert(out@ =~= old(out)@ + enc_vin(vin@));
}

/// Appends a car record.
fn put_car(out: &mut Vec<u8>, car: &Car)
    ensures
        final(out)@ == old(out)@ + enc_car(car@),
        car_fits(car@),
{
    put_string(out, &car.owner_name);
    put_string(out, &car.owner_surname);
    put_u32(out, car.distance_traveled);
    put_vin(out, &car.vin_number);
    assert(out@ =~= old(out)@ + enc_car(car@));
}

/// Appends an item of a contract.
fn put_rev_polish(out: &mut Vec<u8>, item: &RevPolish)
    ensures
        final(out)@ == old(out)@ + enc_rev_polish(*item),
{
    match item {
        RevPolish::Number(bits) => {
            put_u32(out, 0);
            put_u64(out, *bits);
        },
        RevPolish::Operation(c) => {
            put_u32(out, 1);
            put_char(out, *c);
        },
        RevPolish::Arg => {
            put_u32(out, 2);
        },
    }
    assert(out@ =~= old(out)@ + enc_rev_polish(*item));
}

/// Appends a contract with the number of its items.
fn put_contract(out: &mut Vec<u8>, items: &Vec<RevPolish>)
    ensures
        final(out)@ == old(out)@ + enc_contract(items@),
        items@.len() <= u64::MAX,
{
    let enc = Ghost(|item: RevPolish| enc_rev_polish(item));
    put_u64(out, items.len() as u64);
    let mut i: usize = 0;
    while i < items.len()
        invariant
            i <= items.len(),
            enc@ == (|item: RevPolish| enc_rev_polish(item)),
            out@ == old(out)@ + enc_u64(items.len() as u64) + enc_each(
                enc@,
                items@.subrange(0, i as int),
            ),
        decreases items.len() - i,
    {
        put_rev_polish(out, &items[i]);
        i += 1;
        proof {
            let upto = items@.subrange(0, i as int);
            assert(upto.drop_last() =~= items@.subrange(0, i - 1));
            assert(out@ =~= old(out)@ + enc_u64(items.len() as u64) + enc_each(enc@, upto));
        }
    }
    assert(items@.subrange(0, items@.len() as int) =~= items@);
    assert(out@ =~= old(out)@ + enc_contract(items@));
}

/// Appends a sequence of numbers with their count.
fn put_numbers(out: &mut Vec<u8>, numbers: &Vec<u64>)
    ensures
        final(out)@ == old(out)@ + enc_numbers(numbers@),
        numbers@.len() <= u64::MAX,
{
    let enc = Ghost(|bits: u64| enc_u64(bits));
    put_u64(out, numbers.len() as u64);
    let mut i: usize = 0;
    while i < numbers.len()
        invariant
            i <= numbers.len(),
            enc@ == (|bits: u64| enc_u64(bits)),
            out@ == old(out)@ + enc_u64(numbers.len() as u64) + enc_each(
                enc@,
                numbers@.subrange(0, i as int),
            ),
        decreases numbers.len() - i,
    {
        put_u64(out, numbers[i]);
        i += 1;
        proof {
            let upto = numbers@.subrange(0, i as int);
            assert(upto.drop_last() =~= numbers@.subrange(0, i - 1));
            assert(out@ =~= old(out)@ + enc_u64(numbers.len() as u64) + enc_each(enc@, upto));
        }
    }
    assert(numbers@.subrange(0, numbers@.len() as int) =~= numbers@);
    assert(out@ =~= old(out)@ + enc_numbers(numbers@));
}

/// Appends the record of a contract's value.
fn put_contract_result(out: &mut Vec<u8>, res: &ContractResult)
    ensures
        final(out)@ == old(out)@ + enc_contract_result(res@),
        res@.args.len() <= u64::MAX,
{
    put_u32(out, res.block_id);
    put_u64(out, res.result);
    put_numbers(out, &res.args);
    assert(out@ =~= old(out)@ + enc_contract_result(res@));
}

/// Appends the layout of what a block records.
pub(crate) fn put_block_data(out: &mut Vec<u8>, data: &BlockData)
    ensures
        final(out)@ == old(out)@ + enc_block_data(data@),
        data_fits(data@),
{
    match data {
        BlockData::Contract(items) => {
            put_u32(out, 0);
            put_contract(out, items);
        },
        BlockData::Car(car) => {
            put_u32(out, 1);
            put_car(out, car);
        },
        BlockData::ContractResult(res) => {
            put_u32(out, 2);
            put_contract_result(out, res);
        },
    }
    assert(out@ =~= old(out)@ + enc_block_data(data@));
}

/// Appends the layout of a block.
pub(crate) fn put_block(out: &mut Vec<u8>, block: &Block)
    ensures
        final(out)@ == old(out)@ + enc_block(block@),
        block_fits(block@),
{
    put_bytes(out, block.hash.as_slice());
    put_u32(out, block.id);
    put_bytes(out, block.prev_hash.as_slice());
    put_u32(out, block.nonce);
    put_block_data(out, &block.data);
    put_string(out, &block.mined_by);
    assert(out@ =~= old(out)@ + enc_block(block@));
}

/// The payload that carries `data`. Reading it gives `data` back.
pub fn encode_block_data(data: &BlockData) -> (bytes: Vec<u8>)
    ensures
        bytes@ == enc_block_data(data@),
        data_fits(data@),
        dec_block_data(bytes@, 0) == Some((data@, bytes@.len() as int)),
{
    let mut out: Vec<u8> = Vec::new();
    put_block_data(&mut out, data);
    assert(out@ =~= enc_block_data(data@));
    proof {
        lemma_decode_encoded_block_data(data@, Seq::empty());
        assert(out@ + Seq::<u8>::empty() =~= out@);
    }
    out
}

/// The payload that carries `block`. Reading it gives `block` back.
pub fn encode_block(block: &Block) -> (bytes: Vec<u8>)
    ensures
        bytes@ == enc_block(block@),
        block_fits(block@),
        dec_block(bytes@, 0) == Some((block@, bytes@.len() as int)),
{
    let mut out: Vec<u8> = Vec::new();
    put_block(&mut out, block);
    assert(out@ =~= enc_block(block@));
    proof {
        lemma_decode_encoded_block(block@, Seq::empty());
        assert(out@ + Seq::<u8>::empty() =~= out@);
    }
    out
}

/// The payload that carries a whole chain. Reading it gives the chain back.
pub fn encode_chain(chain: &Vec<Block>) -> (bytes: Vec<u8>)
    ensures
        bytes@ == enc_chain(chain_view(chain@)),
        chain_fits(chain_view(chain@)),
        dec_chain(bytes@, 0) == Some((chain_view(chain@), bytes@.len() as int)),
{
    let enc = Ghost(|block: BlockView| enc_block(block));
    let mut out: Vec<u8> = Vec::new();
    put_u64(&mut out, chain.len() as u64);
    let mut i: usize = 0;
    while i < chain.len()
        invariant
            i <= chain.len(),
            enc@ == (|block: BlockView| enc_block(block)),
            out@ == enc_u64(chain.len() as u64) + enc_each(
                enc@,
                chain_view(chain@).subrange(0, i as int),
            ),
            forall|j: int| 0 <= j < i ==> block_fits(#[trigger] chain_view(chain@)[j]),
        decreases chain.len() - i,
    {
        put_block(&mut out, &chain[i]);
        i += 1;
        proof {
            let upto = chain_view(chain@).subrange(0, i as int);
            assert(upto.drop_last() =~= chain_view(chain@).subrange(0, i - 1));
            assert(upto.last() == chain@[i - 1]@);
            assert(out@ =~= enc_u64(chain.len() as u64) + enc_each(enc@, upto));
        }
    }
    assert(chain_view(chain@).subrange(0, chain@.len() as int) =~= chain_view(chain@));
    proof {
        lemma_decode_encoded_chain(chain_view(chain@), Seq::empty());
        assert(out@ + Seq::<u8>::empty() =~= out@);
    }
    out
}

/// The payload that carries the arguments of a contract. Reading it gives
/// the arguments back.
pub fn encode_numbers(numbers: &Vec<u64>) -> (bytes: Vec<u8>)
    ensures
        bytes@ == enc_numbers(numbers@),
        dec_numbers(bytes@, 0) == Some((numbers@, bytes@.len() as int)),
{
    let mut out: Vec<u8> = Vec::new();
    put_numbers(&mut out, numbers);
    assert(out@ =~= enc_numbers(numbers@));
    proof {
        lemma_decode_encoded_numbers(numbers@, Seq::empty());
        assert(out@ + Seq::<u8>::empty() =~= out@);
    }
    out
}

} // verus!
