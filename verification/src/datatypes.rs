//! The ledger's data model: vehicle records, contracts, blocks and messages,
//! each with the mathematical view that the contracts of this crate speak of.

use vstd::prelude::*;
use vstd::string::StringExecFns;

verus! {

/// Number of bytes in a block hash.
pub const HASH_LEN: usize = 32;

/// The hash that stands for "no predecessor": thirty-two zero bytes.
pub open spec fn zero_hash() -> Seq<u8> {
    Seq::new(32, |i: int| 0u8)
}

/// An error with a free-form description, as shown to the operator.
#[derive(Debug)]
pub struct BlockchainError(pub String);

/// Vehicle identification number, in its three parts.
#[derive(Debug, PartialEq, Eq)]
pub struct Vin {
    pub wmi: String,
    pub vds: String,
    pub vis: String,
}

/// A vehicle identification number as a value of mathematics.
pub struct VinView {
    pub wmi: Seq<char>,
    pub vds: Seq<char>,
    pub vis: Seq<char>,
}

impl View for Vin {
    type V = VinView;

    open spec fn view(&self) -> VinView {
        VinView { wmi: self.wmi@, vds: self.vds@, vis: self.vis@ }
    }
}

/// A vehicle registration record.
#[derive(Debug, PartialEq, Eq)]
pub struct Car {
    pub owner_name: String,
    pub owner_surname: String,
    pub distance_traveled: u32,
    pub vin_number: Vin,
}

/// A car record as a value of mathematics.
pub struct CarView {
    pub owner_name: Seq<char>,
    pub owner_surname: Seq<char>,
    pub distance_traveled: u32,
    pub vin_number: VinView,
}

impl View for Car {
    type V = CarView;

    open spec fn view(&self) -> CarView {
        CarView {
            owner_name: self.owner_name@,
            owner_surname: self.owner_surname@,
            distance_traveled: self.distance_traveled,
            vin_number: self.vin_number@,
        }
    }
}

/// One item of a postfix expression. A number is held as the bit pattern of
/// an IEEE 754 double, which is also how it travels on the wire.
#[derive(Clone, Copy, Debug, PartialEq, Eq, Structural)]
pub enum RevPolish {
    Number(u64),
    Operation(char),
    Arg,
}

/// The outcome of evaluating the contract stored in block `block_id` on
/// `args`. `result` and `args` are bit patterns of doubles.
#[derive(Debug, PartialEq, Eq)]
pub struct ContractResult {
    pub block_id: u32,
    pub result: u64,
    pub args: Vec<u64>,
}

/// The record of a contract's value as a value of mathematics.
pub struct ContractResultView {
    pub block_id: u32,
    pub result: u64,
    pub args: Seq<u64>,
}

impl View for ContractResult {
    type V = ContractResultView;

    open spec fn view(&self) -> ContractResultView {
        ContractResultView { block_id: self.block_id, result: self.result, args: self.args@ }
    }
}

/// What a block records.
#[derive(Debug, PartialEq, Eq)]
pub enum BlockData {
    Contract(Vec<RevPolish>),
    Car(Car),
    ContractResult(ContractResult),
}

/// What a block records as a value of mathematics.
pub enum BlockDataView {
    Contract(Seq<RevPolish>),
    Car(CarView),
    ContractResult(ContractResultView),
}

impl View for BlockData {
    type V = BlockDataView;

    open spec fn view(&self) -> BlockDataView {
        match self {
            BlockData::Contract(items) => BlockDataView::Contract(items@),
            BlockData::Car(car) => BlockDataView::Car(car@),
            BlockData::ContractResult(res) => BlockDataView::ContractResult(res@),
        }
    }
}

/// A record of the ledger, linked to its predecessor by hash.
#[derive(Debug, PartialEq, Eq)]
pub struct Block {
    pub hash: [u8; HASH_LEN],
    pub id: u32,
    pub prev_hash: [u8; HASH_LEN],
    pub nonce: u32,
    pub data: BlockData,
    pub mined_by: String,
}

/// A block as a value of mathematics: its hashes as byte sequences, its
/// miner's label as a sequence of characters.
pub struct BlockView {
    pub hash: Seq<u8>,
    pub id: u32,
    pub prev_hash: Seq<u8>,
    pub nonce: u32,
    pub data: BlockDataView,
    pub mined_by: Seq<char>,
}

impl View for Block {
    type V = BlockView;

    open spec fn view(&self) -> BlockView {
        BlockView {
            hash: self.hash@,
            id: self.id,
            prev_hash: self.prev_hash@,
            nonce: self.nonce,
            data: self.data@,
            mined_by: self.mined_by@,
        }
    }
}

/// The views of the blocks of a chain, in order.
pub open spec fn chain_view(chain: Seq<Block>) -> Seq<BlockView> {
    chain.map_values(|b: Block| b@)
}

/// What a message asks of its receiver. In a datagram a command travels as
/// its place in this list, counted from 0.
#[derive(Clone, Copy, Debug, PartialEq, Eq, Structural)]
pub enum Comm {
    NewBlock,
    Accepted,
    Rejected,
    DataToBlock,
    PrintChain,
    Broadcast,
    Blockchain,
    EndMining,
    CalcContract,
}

/// A command with its payload, whose layout depends on the command.
#[derive(Debug, PartialEq, Eq)]
pub struct Msg {
    pub command: Comm,
    pub data: Vec<u8>,
}

/// A copy of `bytes`.
pub fn clone_bytes(bytes: &Vec<u8>) -> (out: Vec<u8>)
    ensures
        out@ == bytes@,
{
    let mut out: Vec<u8> = Vec::new();
    let mut i: usize = 0;
    while i < bytes.len()
        invariant
            i <= bytes.len(),
            out@ == bytes@.subrange(0, i as int),
        decreases bytes.len() - i,
    {
        out.push(bytes[i]);
        i += 1;
    }
    assert(bytes@.subrange(0, bytes@.len() as int) == bytes@);
    out
}

impl Clone for Vin {
    fn clone(&self) -> (out: Vin)
        ensures
            out@ == self@,
    {
        Vin { wmi: self.wmi.clone(), vds: self.vds.clone(), vis: self.vis.clone() }
    }
}

impl Clone for Car {
    fn clone(&self) -> (out: Car)
        ensures
            out@ == self@,
    {
        Car {
            owner_name: self.owner_name.clone(),
            owner_surname: self.owner_surname.clone(),
            distance_traveled: self.distance_traveled,
            vin_number: self.vin_number.clone(),
        }
    }
}

impl Clone for ContractResult {
    fn clone(&self) -> (out: ContractResult)
        ensures
            out@ == self@,
    {
        let args = self.args.clone();
        assert(args@ =~= self.args@);
        ContractResult { block_id: self.block_id, result: self.result, args }
    }
}

impl Clone for BlockData {
    fn clone(&self) -> (out: BlockData)
        ensures
            out@ == self@,
    {
        match self {
            BlockData::Contract(items) => {
                let copy = items.clone();
                assert(copy@ =~= items@);
                BlockData::Contract(copy)
            },
            BlockData::Car(car) => BlockData::Car(car.clone()),
            BlockData::ContractResult(res) => BlockData::ContractResult(res.clone()),
        }
    }
}

impl Clone for Block {
    fn clone(&self) -> (out: Block)
        ensures
            out@ == self@,
    {
        Block {
            hash: self.hash,
            id: self.id,
            prev_hash: self.prev_hash,
            nonce: self.nonce,
            data: self.data.clone(),
            mined_by: self.mined_by.clone(),
        }
    }
}

impl Clone for Msg {
    fn clone(&self) -> (out: Msg)
        ensures
            out.command == self.command,
            out.data@ == self.data@,
    {
        Msg { command: self.command, data: clone_bytes(&self.data) }
    }
}

/// The text that is given, or the empty text where none is.
pub open spec fn text_or_empty(text: Option<String>) -> Seq<char> {
    match text {
        Some(s) => s@,
        None => Seq::empty(),
    }
}

impl Vin {
    /// A VIN from its parts; a part that is not given is empty.
    pub fn new(wmi: Option<String>, vds: Option<String>, vis: Option<String>) -> (vin: Vin)
        ensures
            vin.wmi@ == text_or_empty(wmi),
            vin.vds@ == text_or_empty(vds),
            vin.vis@ == text_or_empty(vis),
    {
        Vin {
            wmi: given_or_empty(wmi),
            vds: given_or_empty(vds),
            vis: given_or_empty(vis),
        }
    }
}

impl Car {
    /// A car record; a field that is not given is empty, or zero.
    pub fn new(
        owner_name: Option<String>,
        owner_surname: Option<String>,
        distance_traveled: Option<u32>,
        vin_number: Option<Vin>,
    ) -> (car: Car)
        ensures
            car.owner_name@ == text_or_empty(owner_name),
            car.owner_surname@ == text_or_empty(owner_surname),
            car.distance_traveled == (match distance_traveled {
                Some(d) => d,
                None => 0u32,
            }),
            car.vin_number@ == (match vin_number {
                Some(v) => v@,
                None => empty_vin(),
            }),
    {
        let distance: u32 = match distance_traveled {
            Some(d) => d,
            None => 0,
        };
        let vin = match vin_number {
            Some(v) => v,
            None => Vin::new(None, None, None),
        };
        Car {
            owner_name: given_or_empty(owner_name),
            owner_surname: given_or_empty(owner_surname),
            distance_traveled: distance,
            vin_number: vin,
        }
    }
}

/// The VIN whose three parts are empty.
pub open spec fn empty_vin() -> VinView {
    VinView { wmi: Seq::empty(), vds: Seq::empty(), vis: Seq::empty() }
}

/// The car record with no owner, no distance and an empty VIN.
pub open spec fn empty_car() -> CarView {
    CarView {
        owner_name: Seq::empty(),
        owner_surname: Seq::empty(),
        distance_traveled: 0,
        vin_number: empty_vin(),
    }
}

/// The block that stands in for the predecessor of the first block: every
/// field zero or empty, carrying an empty car record.
pub open spec fn empty_block() -> BlockView {
    BlockView {
        hash: zero_hash(),
        id: 0,
        prev_hash: zero_hash(),
        nonce: 0,
        data: BlockDataView::Car(empty_car()),
        mined_by: Seq::empty(),
    }
}

impl Block {
    /// The placeholder block that a miner is given when the chain is empty.
    pub fn new_empty() -> (block: Block)
        ensures
            block@ == empty_block(),
    {
        let block = Block {
            hash: [0u8; HASH_LEN],
            id: 0,
            prev_hash: [0u8; HASH_LEN],
            nonce: 0,
            data: BlockData::Car(Car::new(None, None, None, None)),
            mined_by: String::new(),
        };
        assert(block.hash@ =~= zero_hash());
        assert(block.prev_hash@ =~= zero_hash());
        block
    }
}

/// The text that is given, or the empty text where none is.
fn given_or_empty(text: Option<String>) -> (out: String)
    ensures
        out@ == text_or_empty(text),
{
    match text {
        Some(s) => s,
        None => String::new(),
    }
}

/// The digit that stands for a value below sixteen: `0` to `9`, then `a` to
/// `f`.
pub open spec fn hex_digit(value: u8) -> char {
    if value < 10 {
        (48 + value) as char
    } else {
        (87 + value) as char
    }
}

/// A byte in hexadecimal, in two places: a value below sixteen has a space
/// before its one digit.
pub open spec fn hex_pair(byte: u8) -> Seq<char> {
    if byte < 16 {
        seq![' ', hex_digit(byte)]
    } else {
        seq![hex_digit(byte / 16), hex_digit(byte % 16)]
    }
}

/// The first `count` bytes of a hash in hexadecimal.
pub open spec fn hex_text(hash: Seq<u8>, count: nat) -> Seq<char>
    decreases count,
{
    if count == 0 {
        Seq::empty()
    } else {
        hex_text(hash, (count - 1) as nat) + hex_pair(hash[count - 1])
    }
}

/// A hash as it is shown to the operator: its first eight bytes in
/// hexadecimal, then three dots.
pub open spec fn hash_text(hash: Seq<u8>) -> Seq<char> {
    hex_text(hash, 8) + seq!['.', '.', '.']
}

/// `String::push`: appends one character.
#[verifier::external_body]
fn push_char(text: &mut String, c: char)
    ensures
        final(text)@ == old(text)@.push(c),
{
    text.push(c)
}

/// The digit that stands for a value below sixteen.
fn hex_digit_of(value: u8) -> (digit: char)
    requires
        value < 16,
    ensures
        digit == hex_digit(value),
{
    if value < 10 {
        (48 + value) as char
    } else {
        (87 + value) as char
    }
}

/// A hash as it is shown to the operator.
pub fn format_hash(hash: [u8; HASH_LEN]) -> (formatted: String)
    ensures
        formatted@ == hash_text(hash@),
{
    let mut formatted = String::new();
    let mut i: usize = 0;
    while i < 8
        invariant
            i <= 8,
            formatted@ == hex_text(hash@, i as nat),
        decreases 8 - i,
    {
        let byte: u8 = hash[i];
        if byte < 16 {
            push_char(&mut formatted, ' ');
            push_char(&mut formatted, hex_digit_of(byte));
        } else {
            push_char(&mut formatted, hex_digit_of(byte / 16));
            push_char(&mut formatted, hex_digit_of(byte % 16));
        }
        i += 1;
        assert(formatted@ =~= hex_text(hash@, (i - 1) as nat) + hex_pair(byte));
    }
    push_char(&mut formatted, '.');
    push_char(&mut formatted, '.');
    push_char(&mut formatted, '.');
    assert(formatted@ =~= hash_text(hash@));
    formatted
}

impl BlockchainError {
    /// The error as it is shown to the operator: the word `Error`, a colon
    /// and a space, then the description.
    pub fn message(&self) -> (text: String)
        ensures
            text@ == "Error: "@ + self.0@,
    {
        let mut text = "Error: ".to_owned();
        text.append(self.0.as_str());
        text
    }
}


} // verus!
