//! Reading is the inverse of writing: the layout of a value, wherever it
//! stands in a payload, is read back as that value, and the reading ends
//! where the layout ends.

use crate::datatypes::{BlockDataView, BlockView, CarView, ContractResultView, RevPolish, VinView};
use crate::wire::layout::{
    char_width, dec_block, dec_block_data, dec_car, dec_chain, dec_char, dec_contract,
    dec_contract_result, dec_each, dec_hash, dec_numbers, dec_rev_polish, dec_string,
    dec_u32, dec_u64, dec_vin, enc_block, enc_block_data, enc_car, enc_chain, enc_char,
    enc_contract, enc_contract_result, enc_each, enc_numbers, enc_rev_polish, enc_string,
    enc_u32, enc_u64, enc_vin, block_fits, car_fits, chain_fits, data_fits, text_fits, vin_fits,
};
use vstd::prelude::*;
use vstd::utf8::*;

verus! {

/// Whether `part` stands in `bytes` at `pos`.
pub open spec fn holds_at(bytes: Seq<u8>, pos: int, part: Seq<u8>) -> bool {
    &&& 0 <= pos
    &&& pos + part.len() <= bytes.len()
    &&& bytes.subrange(pos, pos + part.len()) == part
}

/// Where two parts stand one after the other, each stands at its place.
pub proof fn lemma_holds_at_split(bytes: Seq<u8>, pos: int, first: Seq<u8>, second: Seq<u8>)
    requires
        holds_at(bytes, pos, first + second),
    ensures
        holds_at(bytes, pos, first),
        holds_at(bytes, pos + first.len(), second),
{
    let whole = first + second;
    assert(bytes.subrange(pos, pos + first.len()) =~= whole.subrange(0, first.len() as int));
    assert(whole.subrange(0, first.len() as int) =~= first);
    assert(bytes.subrange(pos + first.len(), pos + first.len() + second.len()) =~= whole.subrange(
        first.len() as int,
        whole.len() as int,
    ));
    assert(whole.subrange(first.len() as int, whole.len() as int) =~= second);
}

/// A 32-bit integer is the sum of its four bytes, each at its weight.
proof fn lemma_u32_digits(x: u32)
    by (bit_vector)
    ensures
        x == (x % 256) + 0x100 * (x / 0x100 % 256) + 0x1_0000 * (x / 0x1_0000 % 256) + 0x100_0000
            * (x / 0x100_0000 % 256),
{
}

/// A 64-bit integer is the sum of its eight bytes, each at its weight.
proof fn lemma_u64_digits(x: u64)
    by (bit_vector)
    ensures
        x == (x % 256) + 0x100 * (x / 0x100 % 256) + 0x1_0000 * (x / 0x1_0000 % 256) + 0x100_0000
            * (x / 0x100_0000 % 256) + 0x1_0000_0000 * (x / 0x1_0000_0000 % 256)
            + 0x100_0000_0000 * (x / 0x100_0000_0000 % 256) + 0x1_0000_0000_0000 * (x
            / 0x1_0000_0000_0000 % 256) + 0x100_0000_0000_0000 * (x / 0x100_0000_0000_0000 % 256),
{
}

/// A 32-bit integer is read back as written.
pub proof fn lemma_u32_round_trip(x: u32, bytes: Seq<u8>, pos: int)
    requires
        holds_at(bytes, pos, enc_u32(x)),
    ensures
        dec_u32(bytes, pos) == Some((x, pos + 4)),
{
    reveal(dec_u32);
    lemma_u32_digits(x);
    let part = bytes.subrange(pos, pos + 4);
    assert(part[0] == bytes[pos] && part[1] == bytes[pos + 1] && part[2] == bytes[pos + 2]
        && part[3] == bytes[pos + 3]);
}

/// A 64-bit integer is read back as written.
pub proof fn lemma_u64_round_trip(x: u64, bytes: Seq<u8>, pos: int)
    requires
        holds_at(bytes, pos, enc_u64(x)),
    ensures
        dec_u64(bytes, pos) == Some((x, pos + 8)),
{
    reveal(dec_u64);
    lemma_u64_digits(x);
    let part = bytes.subrange(pos, pos + 8);
    assert(part[0] == bytes[pos] && part[1] == bytes[pos + 1] && part[2] == bytes[pos + 2]
        && part[3] == bytes[pos + 3] && part[4] == bytes[pos + 4] && part[5] == bytes[pos + 5]
        && part[6] == bytes[pos + 6] && part[7] == bytes[pos + 7]);
}

/// A string is read back as written.
pub proof fn lemma_string_round_trip(text: Seq<char>, bytes: Seq<u8>, pos: int)
    requires
        text_fits(text),
        holds_at(bytes, pos, enc_string(text)),
    ensures
        dec_string(bytes, pos) == Some((text, pos + enc_string(text).len())),
{
    let utf8 = encode_utf8(text);
    lemma_holds_at_split(bytes, pos, enc_u64(utf8.len() as u64), utf8);
    lemma_u64_round_trip(utf8.len() as u64, bytes, pos);
    encode_utf8_valid_utf8(text);
    encode_utf8_decode_utf8(text);
}

/// The first byte of a character's UTF-8 form lies in the range that goes
/// with the length of the form.
proof fn lemma_leading_byte(v: u32)
    by (bit_vector)
    ensures
        v <= 0x7f ==> (v & 0x7F) as u8 <= 0x7f,
        0x80 <= v <= 0x7ff ==> 0xc2 <= (0xC0u8 | ((v >> 6) & 0x1F) as u8) <= 0xdf,
        0x800 <= v <= 0xffff ==> 0xe0 <= (0xE0u8 | ((v >> 12) & 0x0F) as u8) <= 0xef,
        0x10000 <= v <= 0x10ffff ==> 0xf0 <= (0xF0u8 | ((v >> 18) & 0x7) as u8) <= 0xf4,
{
}

/// The first byte of a character's UTF-8 form announces its length.
pub proof fn lemma_char_width(c: char)
    ensures
        1 <= enc_char(c).len() <= 4,
        char_width(enc_char(c)[0]) == enc_char(c).len(),
{
    char_is_scalar(c);
    lemma_leading_byte(c as u32);
}

/// A character is read back as written.
pub proof fn lemma_char_round_trip(c: char, bytes: Seq<u8>, pos: int)
    requires
        holds_at(bytes, pos, enc_char(c)),
    ensures
        dec_char(bytes, pos) == Some((c, pos + enc_char(c).len())),
{
    let part = enc_char(c);
    lemma_char_width(c);
    assert(bytes.subrange(pos, pos + part.len())[0] == bytes[pos]);
    let one = seq![c];
    assert(one.drop_first() =~= Seq::<char>::empty());
    assert(encode_utf8(one) =~= part) by {
        reveal_with_fuel(encode_utf8, 2);
    }
    encode_utf8_valid_utf8(one);
    encode_utf8_decode_utf8(one);
}

/// A vehicle identification number is read back as written.
pub proof fn lemma_vin_round_trip(vin: VinView, bytes: Seq<u8>, pos: int)
    requires
        vin_fits(vin),
        holds_at(bytes, pos, enc_vin(vin)),
    ensures
        dec_vin(bytes, pos) == Some((vin, pos + enc_vin(vin).len())),
{
    let a = enc_string(vin.wmi);
    let b = enc_string(vin.vds);
    let c = enc_string(vin.vis);
    let at_b = pos + a.len();
    let at_c = at_b + b.len();
    let end = at_c + c.len();
    assert(enc_vin(vin) == a + b + c);
    lemma_holds_at_split(bytes, pos, a + b, c);
    lemma_holds_at_split(bytes, pos, a, b);
    lemma_string_round_trip(vin.wmi, bytes, pos);
    lemma_string_round_trip(vin.vds, bytes, at_b);
    lemma_string_round_trip(vin.vis, bytes, at_c);
    assert(dec_string(bytes, pos) == Some((vin.wmi, at_b)));
    assert(dec_string(bytes, at_b) == Some((vin.vds, at_c)));
    assert(dec_string(bytes, at_c) == Some((vin.vis, end)));
}

/// A car record is read back as written.
pub proof fn lemma_car_round_trip(car: CarView, bytes: Seq<u8>, pos: int)
    requires
        car_fits(car),
        holds_at(bytes, pos, enc_car(car)),
    ensures
        dec_car(bytes, pos) == Some((car, pos + enc_car(car).len())),
{
    let a = enc_string(car.owner_name);
    let b = enc_string(car.owner_surname);
    let c = enc_u32(car.distance_traveled);
    let d = enc_vin(car.vin_number);
    let at_b = pos + a.len();
    let at_c = at_b + b.len();
    let at_d = at_c + 4;
    let end = at_d + d.len();
    assert(enc_car(car) == a + b + c + d);
    lemma_holds_at_split(bytes, pos, a + b + c, d);
    lemma_holds_at_split(bytes, pos, a + b, c);
    lemma_holds_at_split(bytes, pos, a, b);
    lemma_string_round_trip(car.owner_name, bytes, pos);
    lemma_string_round_trip(car.owner_surname, bytes, at_b);
    lemma_u32_round_trip(car.distance_traveled, bytes, at_c);
    lemma_vin_round_trip(car.vin_number, bytes, at_d);
    assert(dec_string(bytes, pos) == Some((car.owner_name, at_b)));
    assert(dec_string(bytes, at_b) == Some((car.owner_surname, at_c)));
    assert(dec_u32(bytes, at_c) == Some((car.distance_traveled, at_d)));
    assert(dec_vin(bytes, at_d) == Some((car.vin_number, end)));
}

/// An item of a contract is read back as written.
pub proof fn lemma_rev_polish_round_trip(item: RevPolish, bytes: Seq<u8>, pos: int)
    requires
        holds_at(bytes, pos, enc_rev_polish(item)),
    ensures
        dec_rev_polish(bytes, pos) == Some((item, pos + enc_rev_polish(item).len())),
{
    match item {
        RevPolish::Number(bits) => {
            lemma_holds_at_split(bytes, pos, enc_u32(0), enc_u64(bits));
            lemma_u32_round_trip(0, bytes, pos);
            lemma_u64_round_trip(bits, bytes, pos + 4);
        },
        RevPolish::Operation(c) => {
            lemma_holds_at_split(bytes, pos, enc_u32(1), enc_char(c));
            lemma_u32_round_trip(1, bytes, pos);
            lemma_char_round_trip(c, bytes, pos + 4);
        },
        RevPolish::Arg => {
            lemma_u32_round_trip(2, bytes, pos);
        },
    }
}

/// Items that are each read back as written are read back as a sequence.
pub proof fn lemma_each_round_trip<T>(
    enc: spec_fn(T) -> Seq<u8>,
    dec: spec_fn(Seq<u8>, int) -> Option<(T, int)>,
    items: Seq<T>,
    bytes: Seq<u8>,
    pos: int,
)
    requires
        holds_at(bytes, pos, enc_each(enc, items)),
        forall|i: int, p: int|
            0 <= i < items.len() && holds_at(bytes, p, enc(items[i])) ==> #[trigger] dec(bytes, p)
                == Some((#[trigger] items[i], p + enc(items[i]).len())),
    ensures
        dec_each(dec, bytes, pos, items.len()) == Some((items, pos + enc_each(enc, items).len())),
    decreases items.len(),
{
    if items.len() == 0 {
        assert(items =~= Seq::<T>::empty());
    } else {
        let front = items.drop_last();
        let last = items.last();
        lemma_holds_at_split(bytes, pos, enc_each(enc, front), enc(last));
        assert forall|i: int, p: int|
            0 <= i < front.len() && holds_at(bytes, p, enc(front[i])) implies #[trigger] dec(
            bytes,
            p,
        ) == Some((#[trigger] front[i], p + enc(front[i]).len())) by {
            assert(front[i] == items[i]);
        }
        lemma_each_round_trip(enc, dec, front, bytes, pos);
        let p = pos + enc_each(enc, front).len();
        assert(items[items.len() - 1] == last);
        assert(dec(bytes, p) == Some((last, p + enc(last).len())));
        assert(front.push(last) =~= items);
    }
}

/// A contract is read back as written.
pub proof fn lemma_contract_round_trip(items: Seq<RevPolish>, bytes: Seq<u8>, pos: int)
    requires
        items.len() <= u64::MAX,
        holds_at(bytes, pos, enc_contract(items)),
    ensures
        dec_contract(bytes, pos) == Some((items, pos + enc_contract(items).len())),
{
    let enc = |item: RevPolish| enc_rev_polish(item);
    let dec = |b: Seq<u8>, p: int| dec_rev_polish(b, p);
    lemma_holds_at_split(bytes, pos, enc_u64(items.len() as u64), enc_each(enc, items));
    lemma_u64_round_trip(items.len() as u64, bytes, pos);
    assert forall|i: int, p: int|
        0 <= i < items.len() && holds_at(bytes, p, enc(items[i])) implies #[trigger] dec(bytes, p)
        == Some((#[trigger] items[i], p + enc(items[i]).len())) by {
        lemma_rev_polish_round_trip(items[i], bytes, p);
    }
    lemma_each_round_trip(enc, dec, items, bytes, pos + 8);
}

/// A sequence of numbers is read back as written.
pub proof fn lemma_numbers_round_trip(numbers: Seq<u64>, bytes: Seq<u8>, pos: int)
    requires
        numbers.len() <= u64::MAX,
        holds_at(bytes, pos, enc_numbers(numbers)),
    ensures
        dec_numbers(bytes, pos) == Some((numbers, pos + enc_numbers(numbers).len())),
{
    let enc = |bits: u64| enc_u64(bits);
    let dec = |b: Seq<u8>, p: int| dec_u64(b, p);
    lemma_holds_at_split(bytes, pos, enc_u64(numbers.len() as u64), enc_each(enc, numbers));
    lemma_u64_round_trip(numbers.len() as u64, bytes, pos);
    assert forall|i: int, p: int|
        0 <= i < numbers.len() && holds_at(bytes, p, enc(numbers[i])) implies #[trigger] dec(
        bytes,
        p,
    ) == Some((#[trigger] numbers[i], p + enc(numbers[i]).len())) by {
        lemma_u64_round_trip(numbers[i], bytes, p);
    }
    lemma_each_round_trip(enc, dec, numbers, bytes, pos + 8);
}

/// The record of a contract's value is read back as written.
pub proof fn lemma_contract_result_round_trip(res: ContractResultView, bytes: Seq<u8>, pos: int)
    requires
        res.args.len() <= u64::MAX,
        holds_at(bytes, pos, enc_contract_result(res)),
    ensures
        dec_contract_result(bytes, pos) == Some((res, pos + enc_contract_result(res).len())),
{
    let a = enc_u32(res.block_id);
    let b = enc_u64(res.result);
    let c = enc_numbers(res.args);
    assert(enc_contract_result(res) == a + b + c);
    lemma_holds_at_split(bytes, pos, a + b, c);
    lemma_holds_at_split(bytes, pos, a, b);
    lemma_u32_round_trip(res.block_id, bytes, pos);
    lemma_u64_round_trip(res.result, bytes, pos + 4);
    lemma_numbers_round_trip(res.args, bytes, pos + 12);
    assert(dec_u32(bytes, pos) == Some((res.block_id, pos + 4)));
    assert(dec_u64(bytes, pos + 4) == Some((res.result, pos + 12)));
    assert(dec_numbers(bytes, pos + 12) == Some((res.args, pos + 12 + c.len())));
}

/// A tag is read back as written, and what follows it stands behind it.
proof fn lemma_tag_round_trip(tag: u32, body: Seq<u8>, bytes: Seq<u8>, pos: int)
    requires
        holds_at(bytes, pos, enc_u32(tag) + body),
    ensures
        dec_u32(bytes, pos) == Some((tag, pos + 4)),
        holds_at(bytes, pos + 4, body),
        (enc_u32(tag) + body).len() == 4 + body.len(),
{
    lemma_holds_at_split(bytes, pos, enc_u32(tag), body);
    lemma_u32_round_trip(tag, bytes, pos);
}

/// What a block records is read back as written.
pub proof fn lemma_block_data_round_trip(data: BlockDataView, bytes: Seq<u8>, pos: int)
    requires
        data_fits(data),
        holds_at(bytes, pos, enc_block_data(data)),
    ensures
        dec_block_data(bytes, pos) == Some((data, pos + enc_block_data(data).len())),
{
    match data {
        BlockDataView::Contract(items) => {
            lemma_tag_round_trip(0, enc_contract(items), bytes, pos);
            lemma_contract_round_trip(items, bytes, pos + 4);
        },
        BlockDataView::Car(car) => {
            lemma_tag_round_trip(1, enc_car(car), bytes, pos);
            lemma_car_round_trip(car, bytes, pos + 4);
        },
        BlockDataView::ContractResult(res) => {
            lemma_tag_round_trip(2, enc_contract_result(res), bytes, pos);
            lemma_contract_result_round_trip(res, bytes, pos + 4);
        },
    }
}

/// A block is read back as written.
pub proof fn lemma_block_round_trip(block: BlockView, bytes: Seq<u8>, pos: int)
    requires
        block_fits(block),
        holds_at(bytes, pos, enc_block(block)),
    ensures
        dec_block(bytes, pos) == Some((block, pos + enc_block(block).len())),
{
    let a = block.hash;
    let b = enc_u32(block.id);
    let c = block.prev_hash;
    let d = enc_u32(block.nonce);
    let e = enc_block_data(block.data);
    let f = enc_string(block.mined_by);
    let at_f = pos + 72 + e.len();
    assert(enc_block(block) == a + b + c + d + e + f);
    lemma_holds_at_split(bytes, pos, a + b + c + d + e, f);
    lemma_holds_at_split(bytes, pos, a + b + c + d, e);
    lemma_holds_at_split(bytes, pos, a + b + c, d);
    lemma_holds_at_split(bytes, pos, a + b, c);
    lemma_holds_at_split(bytes, pos, a, b);
    lemma_u32_round_trip(block.id, bytes, pos + 32);
    lemma_u32_round_trip(block.nonce, bytes, pos + 68);
    lemma_block_data_round_trip(block.data, bytes, pos + 72);
    lemma_string_round_trip(block.mined_by, bytes, at_f);
    assert(dec_hash(bytes, pos) == Some((block.hash, pos + 32)));
    assert(dec_u32(bytes, pos + 32) == Some((block.id, pos + 36)));
    assert(dec_hash(bytes, pos + 36) == Some((block.prev_hash, pos + 68)));
    assert(dec_u32(bytes, pos + 68) == Some((block.nonce, pos + 72)));
    assert(dec_block_data(bytes, pos + 72) == Some((block.data, at_f)));
    assert(dec_string(bytes, at_f) == Some((block.mined_by, at_f + f.len())));
}

/// A chain is read back as written.
pub proof fn lemma_chain_round_trip(chain: Seq<BlockView>, bytes: Seq<u8>, pos: int)
    requires
        chain_fits(chain),
        holds_at(bytes, pos, enc_chain(chain)),
    ensures
        dec_chain(bytes, pos) == Some((chain, pos + enc_chain(chain).len())),
{
    let enc = |block: BlockView| enc_block(block);
    let dec = |b: Seq<u8>, p: int| dec_block(b, p);
    lemma_holds_at_split(bytes, pos, enc_u64(chain.len() as u64), enc_each(enc, chain));
    lemma_u64_round_trip(chain.len() as u64, bytes, pos);
    assert forall|i: int, p: int|
        0 <= i < chain.len() && holds_at(bytes, p, enc(chain[i])) implies #[trigger] dec(bytes, p)
        == Some((#[trigger] chain[i], p + enc(chain[i]).len())) by {
        lemma_block_round_trip(chain[i], bytes, p);
    }
    lemma_each_round_trip(enc, dec, chain, bytes, pos + 8);
}

/// A payload is what stands at its own beginning, whatever follows it.
pub proof fn lemma_holds_at_start(part: Seq<u8>, rest: Seq<u8>)
    ensures
        holds_at(part + rest, 0, part),
{
    assert((part + rest).subrange(0, part.len() as int) =~= part);
}

/// What a block records is read back from its layout, whatever bytes follow.
pub proof fn lemma_decode_encoded_block_data(data: BlockDataView, rest: Seq<u8>)
    requires
        data_fits(data),
    ensures
        dec_block_data(enc_block_data(data) + rest, 0) == Some(
            (data, enc_block_data(data).len() as int),
        ),
{
    lemma_holds_at_start(enc_block_data(data), rest);
    lemma_block_data_round_trip(data, enc_block_data(data) + rest, 0);
}

/// A block is read back from its layout, whatever bytes follow.
pub proof fn lemma_decode_encoded_block(block: BlockView, rest: Seq<u8>)
    requires
        block_fits(block),
    ensures
        dec_block(enc_block(block) + rest, 0) == Some((block, enc_block(block).len() as int)),
{
    lemma_holds_at_start(enc_block(block), rest);
    lemma_block_round_trip(block, enc_block(block) + rest, 0);
}

/// A chain is read back from its layout, whatever bytes follow.
pub proof fn lemma_decode_encoded_chain(chain: Seq<BlockView>, rest: Seq<u8>)
    requires
        chain_fits(chain),
    ensures
        dec_chain(enc_chain(chain) + rest, 0) == Some((chain, enc_chain(chain).len() as int)),
{
    lemma_holds_at_start(enc_chain(chain), rest);
    lemma_chain_round_trip(chain, enc_chain(chain) + rest, 0);
}

/// The arguments of a contract are read back from their layout, whatever
/// bytes follow.
pub proof fn lemma_decode_encoded_numbers(numbers: Seq<u64>, rest: Seq<u8>)
    requires
        numbers.len() <= u64::MAX,
    ensures
        dec_numbers(enc_numbers(numbers) + rest, 0) == Some(
            (numbers, enc_numbers(numbers).len() as int),
        ),
{
    lemma_holds_at_start(enc_numbers(numbers), rest);
    lemma_numbers_round_trip(numbers, enc_numbers(numbers) + rest, 0);
}

} // verus!
