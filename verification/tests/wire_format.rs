use blockchain::datatypes::{Block, BlockData, Car, ContractResult, RevPolish, Vin};
use blockchain::wire::{
    decode_block, decode_block_data, decode_chain, decode_numbers, encode_block, encode_block_data,
    encode_chain, encode_numbers,
};

fn text(s: &str) -> Option<String> {
    Some(s.to_string())
}

fn max_bravo() -> Car {
    Car::new(text("Max"), text("Bravo"), Some(42), None)
}

fn full_car() -> Car {
    Car::new(
        text("Jakub"),
        text("Niezabitowski"),
        Some(130000),
        Some(Vin::new(text("2HG"), text("C482G3"), text("3A114352"))),
    )
}

fn sample_contract() -> Vec<RevPolish> {
    vec![
        RevPolish::Operation('*'),
        RevPolish::Number(2.0f64.to_bits()),
        RevPolish::Operation('-'),
        RevPolish::Arg,
        RevPolish::Number((-7.25f64).to_bits()),
    ]
}

fn sample_block(id: u32, data: BlockData) -> Block {
    let mut hash = [0u8; 32];
    let mut prev_hash = [0u8; 32];
    for i in 0..32 {
        hash[i] = (i as u8).wrapping_mul(7).wrapping_add(id as u8);
        prev_hash[i] = 255 - i as u8;
    }
    Block { hash, id, prev_hash, nonce: 0xDEADBEEF, data, mined_by: "node-7".to_string() }
}

fn item_bytes(item: &RevPolish) -> Vec<u8> {
    match item {
        RevPolish::Number(bits) => bincode::serialize(&(0u32, f64::from_bits(*bits))).unwrap(),
        RevPolish::Operation(c) => bincode::serialize(&(1u32, *c)).unwrap(),
        RevPolish::Arg => bincode::serialize(&2u32).unwrap(),
    }
}

fn contract_bytes(items: &Vec<RevPolish>) -> Vec<u8> {
    let mut out = bincode::serialize(&0u32).unwrap();
    out.extend(bincode::serialize(&(items.len() as u64)).unwrap());
    for item in items {
        out.extend(item_bytes(item));
    }
    out
}

fn car_bytes(car: &Car) -> Vec<u8> {
    bincode::serialize(&(
        1u32,
        (
            &car.owner_name,
            &car.owner_surname,
            car.distance_traveled,
            (&car.vin_number.wmi, &car.vin_number.vds, &car.vin_number.vis),
        ),
    ))
    .unwrap()
}

fn result_bytes(res: &ContractResult) -> Vec<u8> {
    let args: Vec<f64> = res.args.iter().map(|b| f64::from_bits(*b)).collect();
    bincode::serialize(&(2u32, (res.block_id, f64::from_bits(res.result), args))).unwrap()
}

fn data_bytes(data: &BlockData) -> Vec<u8> {
    match data {
        BlockData::Contract(items) => contract_bytes(items),
        BlockData::Car(car) => car_bytes(car),
        BlockData::ContractResult(res) => result_bytes(res),
    }
}

fn block_bytes(block: &Block) -> Vec<u8> {
    let mut out =
        bincode::serialize(&(block.hash, block.id, block.prev_hash, block.nonce)).unwrap();
    out.extend(data_bytes(&block.data));
    out.extend(bincode::serialize(&block.mined_by).unwrap());
    out
}

#[test]
fn empty_car_layout_is_exact() {
    let data = BlockData::Car(Car::new(None, None, None, None));
    let mut expected = vec![1u8, 0, 0, 0];
    expected.extend(vec![0u8; 8]);
    expected.extend(vec![0u8; 8]);
    expected.extend(vec![0u8; 4]);
    expected.extend(vec![0u8; 24]);
    assert_eq!(encode_block_data(&data), expected);
}

#[test]
fn car_layout_is_exact() {
    let data = BlockData::Car(max_bravo());
    let expected: Vec<u8> = vec![
        1, 0, 0, 0, // variant
        3, 0, 0, 0, 0, 0, 0, 0, b'M', b'a', b'x', // owner name
        5, 0, 0, 0, 0, 0, 0, 0, b'B', b'r', b'a', b'v', b'o', // owner surname
        42, 0, 0, 0, // distance
        0, 0, 0, 0, 0, 0, 0, 0, // wmi
        0, 0, 0, 0, 0, 0, 0, 0, // vds
        0, 0, 0, 0, 0, 0, 0, 0, // vis
    ];
    assert_eq!(encode_block_data(&data), expected);
}

#[test]
fn contract_layout_is_exact() {
    let data = BlockData::Contract(vec![
        RevPolish::Operation('+'),
        RevPolish::Number(1.0f64.to_bits()),
        RevPolish::Arg,
    ]);
    let expected: Vec<u8> = vec![
        0, 0, 0, 0, // variant
        3, 0, 0, 0, 0, 0, 0, 0, // three items
        1, 0, 0, 0, b'+', // operation
        0, 0, 0, 0, 0, 0, 0, 0, 0, 0, 0xF0, 0x3F, // number 1.0
        2, 0, 0, 0, // argument
    ];
    assert_eq!(encode_block_data(&data), expected);
}

#[test]
fn contract_result_layout_is_exact() {
    let data = BlockData::ContractResult(ContractResult {
        block_id: 0x01020304,
        result: 0x1122334455667788,
        args: vec![1, 0x0100],
    });
    let expected: Vec<u8> = vec![
        2, 0, 0, 0, // variant
        4, 3, 2, 1, // block id
        0x88, 0x77, 0x66, 0x55, 0x44, 0x33, 0x22, 0x11, // result
        2, 0, 0, 0, 0, 0, 0, 0, // two arguments
        1, 0, 0, 0, 0, 0, 0, 0, //
        0, 1, 0, 0, 0, 0, 0, 0,
    ];
    assert_eq!(encode_block_data(&data), expected);
}

#[test]
fn block_layout_is_exact() {
    let block = Block {
        hash: [0xAA; 32],
        id: 258,
        prev_hash: [0xBB; 32],
        nonce: 0x0A0B0C0D,
        data: BlockData::Contract(vec![]),
        mined_by: "n1".to_string(),
    };
    let mut expected = vec![0xAAu8; 32];
    expected.extend([2u8, 1, 0, 0]);
    expected.extend(vec![0xBBu8; 32]);
    expected.extend([0x0Du8, 0x0C, 0x0B, 0x0A]);
    expected.extend([0u8, 0, 0, 0, 0, 0, 0, 0, 0, 0, 0, 0]);
    expected.extend([2u8, 0, 0, 0, 0, 0, 0, 0, b'n', b'1']);
    assert_eq!(encode_block(&block), expected);
}

#[test]
fn numbers_layout_is_exact() {
    assert_eq!(encode_numbers(&vec![]), vec![0u8; 8]);
    assert_eq!(
        encode_numbers(&vec![0x0807060504030201]),
        vec![1u8, 0, 0, 0, 0, 0, 0, 0, 1, 2, 3, 4, 5, 6, 7, 8]
    );
}

#[test]
fn block_data_agrees_with_bincode() {
    let samples = vec![
        BlockData::Car(max_bravo()),
        BlockData::Car(full_car()),
        BlockData::Car(Car::new(text("Zoë"), text("Łukasiewicz 東京 🚗"), Some(u32::MAX), None)),
        BlockData::Contract(sample_contract()),
        BlockData::Contract(vec![]),
        BlockData::Contract(vec![
            RevPolish::Operation('é'),
            RevPolish::Operation('東'),
            RevPolish::Operation('🚗'),
            RevPolish::Operation('\u{7f}'),
            RevPolish::Operation('\u{80}'),
            RevPolish::Operation('\u{7ff}'),
            RevPolish::Operation('\u{800}'),
            RevPolish::Operation('\u{ffff}'),
            RevPolish::Operation('\u{10000}'),
            RevPolish::Operation('\u{10ffff}'),
            RevPolish::Operation('\0'),
        ]),
        BlockData::ContractResult(ContractResult {
            block_id: 3,
            result: (-4.0f64).to_bits(),
            args: vec![3.0f64.to_bits(), 5.0f64.to_bits()],
        }),
        BlockData::ContractResult(ContractResult {
            block_id: u32::MAX,
            result: f64::NAN.to_bits(),
            args: vec![],
        }),
    ];
    for data in samples {
        assert_eq!(encode_block_data(&data), data_bytes(&data));
    }
}

#[test]
fn block_agrees_with_bincode() {
    let blocks = vec![
        sample_block(0, BlockData::Car(max_bravo())),
        sample_block(1, BlockData::Contract(sample_contract())),
        sample_block(
            70000,
            BlockData::ContractResult(ContractResult { block_id: 1, result: 7, args: vec![9] }),
        ),
        Block::new_empty(),
    ];
    for block in &blocks {
        assert_eq!(encode_block(block), block_bytes(block));
    }
    let mut expected = bincode::serialize(&(blocks.len() as u64)).unwrap();
    for block in &blocks {
        expected.extend(block_bytes(block));
    }
    assert_eq!(encode_chain(&blocks), expected);
}

#[test]
fn numbers_agree_with_bincode() {
    let values: Vec<f64> = vec![0.0, -0.0, 1.0, -4.0, 1e300, f64::INFINITY, 0.1, 3.0];
    let bits: Vec<u64> = values.iter().map(|x| x.to_bits()).collect();
    assert_eq!(encode_numbers(&bits), bincode::serialize(&values).unwrap());
    let back: Vec<f64> = bincode::deserialize(&encode_numbers(&bits)).unwrap();
    assert_eq!(back, values);
    assert_eq!(decode_numbers(&bincode::serialize(&values).unwrap()), Some(bits));
}

#[test]
fn bincode_reads_what_is_written() {
    let car = full_car();
    let bytes = encode_block_data(&BlockData::Car(car.clone()));
    let back: (u32, (String, String, u32, (String, String, String))) =
        bincode::deserialize(&bytes).unwrap();
    assert_eq!(back.0, 1);
    assert_eq!((back.1).0, car.owner_name);
    assert_eq!((back.1).1, car.owner_surname);
    assert_eq!((back.1).2, car.distance_traveled);
    assert_eq!(((back.1).3).0, car.vin_number.wmi);
    assert_eq!(((back.1).3).1, car.vin_number.vds);
    assert_eq!(((back.1).3).2, car.vin_number.vis);
}

#[test]
fn block_data_round_trip() {
    let samples = vec![
        BlockData::Car(max_bravo()),
        BlockData::Car(full_car()),
        BlockData::Car(Car::new(text("Zoë"), text("東京 🚗"), Some(7), None)),
        BlockData::Contract(sample_contract()),
        BlockData::Contract(vec![RevPolish::Operation('🚗'), RevPolish::Operation('é')]),
        BlockData::Contract(vec![]),
        BlockData::ContractResult(ContractResult {
            block_id: 9,
            result: 1.0f64.to_bits(),
            args: vec![1, 2, 3],
        }),
    ];
    for data in samples {
        let bytes = encode_block_data(&data);
        assert_eq!(decode_block_data(&bytes), Some(data));
    }
}

#[test]
fn block_round_trip() {
    let block = sample_block(5, BlockData::Contract(sample_contract()));
    assert_eq!(decode_block(&encode_block(&block)), Some(block.clone()));
    let empty = Block::new_empty();
    assert_eq!(decode_block(&encode_block(&empty)), Some(empty));
}

#[test]
fn chain_round_trip() {
    let chain = vec![
        sample_block(0, BlockData::Car(max_bravo())),
        sample_block(1, BlockData::Contract(sample_contract())),
        sample_block(2, BlockData::Car(full_car())),
    ];
    assert_eq!(decode_chain(&encode_chain(&chain)), Some(chain));
    assert_eq!(decode_chain(&encode_chain(&vec![])), Some(vec![]));
}

#[test]
fn numbers_round_trip() {
    let numbers = vec![0u64, 1, u64::MAX, 0x8000_0000_0000_0000, 42];
    assert_eq!(decode_numbers(&encode_numbers(&numbers)), Some(numbers));
    assert_eq!(decode_numbers(&encode_numbers(&vec![])), Some(vec![]));
}

#[test]
fn bytes_behind_a_layout_are_passed_over() {
    let block = sample_block(5, BlockData::Car(max_bravo()));
    let mut bytes = encode_block(&block);
    bytes.extend(vec![0u8; 100]);
    assert_eq!(decode_block(&bytes), Some(block));

    let data = BlockData::Contract(sample_contract());
    let mut bytes = encode_block_data(&data);
    bytes.extend([0xFFu8, 0xFE, 0xFD]);
    assert_eq!(decode_block_data(&bytes), Some(data));

    let mut bytes = encode_numbers(&vec![1, 2]);
    bytes.push(9);
    assert_eq!(decode_numbers(&bytes), Some(vec![1, 2]));
}

#[test]
fn truncated_layouts_are_refused() {
    let block = sample_block(5, BlockData::Car(full_car()));
    let bytes = encode_block(&block);
    for cut in 0..bytes.len() {
        assert_eq!(decode_block(&bytes[..cut]), None, "cut at {}", cut);
    }
    let data = BlockData::Contract(sample_contract());
    let bytes = encode_block_data(&data);
    for cut in 0..bytes.len() {
        assert_eq!(decode_block_data(&bytes[..cut]), None, "cut at {}", cut);
    }
    let bytes = encode_numbers(&vec![1, 2, 3]);
    for cut in 0..bytes.len() {
        assert_eq!(decode_numbers(&bytes[..cut]), None, "cut at {}", cut);
    }
    let chain = vec![sample_block(0, BlockData::Car(max_bravo()))];
    let bytes = encode_chain(&chain);
    for cut in 0..bytes.len() {
        assert_eq!(decode_chain(&bytes[..cut]), None, "cut at {}", cut);
    }
}

#[test]
fn unknown_variants_are_refused() {
    assert_eq!(decode_block_data(&[3, 0, 0, 0, 0, 0, 0, 0, 0, 0, 0, 0]), None);
    assert_eq!(decode_block_data(&[1, 1, 0, 0, 0, 0, 0, 0, 0, 0, 0, 0]), None);
    let one_item_of_variant_three: Vec<u8> =
        vec![0, 0, 0, 0, 1, 0, 0, 0, 0, 0, 0, 0, 3, 0, 0, 0];
    assert_eq!(decode_block_data(&one_item_of_variant_three), None);
    let one_argument: Vec<u8> = vec![0, 0, 0, 0, 1, 0, 0, 0, 0, 0, 0, 0, 2, 0, 0, 0];
    assert_eq!(
        decode_block_data(&one_argument),
        Some(BlockData::Contract(vec![RevPolish::Arg]))
    );
}

#[test]
fn invalid_text_is_refused() {
    let mut bytes = encode_block_data(&BlockData::Car(max_bravo()));
    assert_eq!(bytes[12], b'M');
    bytes[12] = 0xFF;
    assert_eq!(decode_block_data(&bytes), None);
    bytes[12] = 0xC3;
    bytes[13] = 0xA9;
    let car = Car::new(text("éx"), text("Bravo"), Some(42), None);
    assert_eq!(decode_block_data(&bytes), Some(BlockData::Car(car)));
    bytes[13] = b'a';
    assert_eq!(decode_block_data(&bytes), None);
}

#[test]
fn text_longer_than_the_payload_is_refused() {
    let mut bytes = encode_block_data(&BlockData::Car(max_bravo()));
    bytes[4] = 200;
    assert_eq!(decode_block_data(&bytes), None);
    bytes[4] = 3;
    bytes[11] = 0x80;
    assert_eq!(decode_block_data(&bytes), None);
}

#[test]
fn sequence_longer_than_the_payload_is_refused() {
    let mut bytes = encode_numbers(&vec![1, 2, 3]);
    bytes[0] = 4;
    assert_eq!(decode_numbers(&bytes), None);
    bytes[0] = 2;
    assert_eq!(decode_numbers(&bytes), Some(vec![1, 2]));
    let huge: Vec<u8> = vec![0xFF; 8];
    assert_eq!(decode_numbers(&huge), None);
    assert_eq!(decode_chain(&huge), None);
}

fn operation_payload(char_bytes: &[u8]) -> Vec<u8> {
    let mut bytes: Vec<u8> = vec![0, 0, 0, 0, 1, 0, 0, 0, 0, 0, 0, 0, 1, 0, 0, 0];
    bytes.extend_from_slice(char_bytes);
    bytes
}

#[test]
fn characters_are_read_as_utf8() {
    let cases: Vec<(&[u8], char)> = vec![
        (&[0x2B], '+'),
        (&[0x00], '\0'),
        (&[0x7F], '\u{7f}'),
        (&[0xC2, 0x80], '\u{80}'),
        (&[0xC3, 0xA9], 'é'),
        (&[0xDF, 0xBF], '\u{7ff}'),
        (&[0xE0, 0xA0, 0x80], '\u{800}'),
        (&[0xE6, 0x9D, 0xB1], '東'),
        (&[0xEF, 0xBF, 0xBF], '\u{ffff}'),
        (&[0xF0, 0x90, 0x80, 0x80], '\u{10000}'),
        (&[0xF0, 0x9F, 0x9A, 0x97], '🚗'),
        (&[0xF4, 0x8F, 0xBF, 0xBF], '\u{10ffff}'),
    ];
    for (bytes, c) in cases {
        let payload = operation_payload(bytes);
        assert_eq!(
            decode_block_data(&payload),
            Some(BlockData::Contract(vec![RevPolish::Operation(c)]))
        );
        let with_bincode: (u32, Vec<(u32, char)>) = bincode::deserialize(&payload).unwrap();
        assert_eq!(with_bincode, (0, vec![(1, c)]));
    }
}

#[test]
fn invalid_characters_are_refused() {
    let cases: Vec<&[u8]> = vec![
        &[],
        &[0x80],
        &[0xBF],
        &[0xC0, 0x80],
        &[0xC1, 0xBF],
        &[0xC3],
        &[0xC3, 0x28],
        &[0xE0, 0x80, 0x80],
        &[0xE0, 0xA0],
        &[0xED, 0xA0, 0x80],
        &[0xED, 0xBF, 0xBF],
        &[0xF0, 0x80, 0x80, 0x80],
        &[0xF0, 0x9F, 0x9A],
        &[0xF4, 0x90, 0x80, 0x80],
        &[0xF5, 0x80, 0x80, 0x80],
        &[0xF8, 0x80, 0x80, 0x80],
        &[0xFF],
    ];
    for bytes in cases {
        let payload = operation_payload(bytes);
        assert_eq!(decode_block_data(&payload), None, "for {:?}", bytes);
        let with_bincode: Result<(u32, Vec<(u32, char)>), _> = bincode::deserialize(&payload);
        assert!(with_bincode.is_err(), "for {:?}", bytes);
    }
}

#[test]
fn decoding_agrees_with_bincode_on_damaged_payloads() {
    let car = full_car();
    let bytes = encode_block_data(&BlockData::Car(car));
    for at in 0..bytes.len() {
        for flip in [0x01u8, 0x80, 0xFF] {
            let mut damaged = bytes.clone();
            damaged[at] ^= flip;
            let ours = decode_block_data(&damaged);
            let theirs: Result<(u32, (String, String, u32, (String, String, String))), _> =
                bincode::deserialize(&damaged);
            match (ours, theirs) {
                (Some(BlockData::Car(c)), Ok((1, (name, surname, distance, (wmi, vds, vis))))) => {
                    assert_eq!(c.owner_name, name);
                    assert_eq!(c.owner_surname, surname);
                    assert_eq!(c.distance_traveled, distance);
                    assert_eq!(c.vin_number.wmi, wmi);
                    assert_eq!(c.vin_number.vds, vds);
                    assert_eq!(c.vin_number.vis, vis);
                }
                (None, Err(_)) => {}
                (ours, Ok((tag, _))) => {
                    assert_ne!(tag, 1, "at {} with {:#x}", at, flip);
                    assert!(!matches!(ours, Some(BlockData::Car(_))));
                }
                (ours, Err(_)) => panic!("at {} with {:#x}: {:?}", at, flip, ours),
            }
        }
    }
}

#[test]
fn block_decoding_agrees_with_bincode_on_damaged_payloads() {
    let block = sample_block(3, BlockData::Car(full_car()));
    let bytes = encode_block(&block);
    type CarParts = (String, String, u32, (String, String, String));
    type BlockParts = (([u8; 32], u32, [u8; 32], u32), (u32, CarParts), String);
    let mut agreed = 0;
    for at in 0..bytes.len() {
        for flip in [0x01u8, 0x40, 0x80, 0xFF] {
            let mut damaged = bytes.clone();
            damaged[at] ^= flip;
            let ours = decode_block(&damaged);
            let theirs: Result<BlockParts, _> = bincode::deserialize(&damaged);
            match (ours, theirs) {
                (Some(b), Ok((head, (1, car), miner))) => {
                    let data = BlockData::Car(Car::new(
                        Some(car.0),
                        Some(car.1),
                        Some(car.2),
                        Some(Vin::new(Some((car.3).0), Some((car.3).1), Some((car.3).2))),
                    ));
                    let expected = Block {
                        hash: head.0,
                        id: head.1,
                        prev_hash: head.2,
                        nonce: head.3,
                        data,
                        mined_by: miner,
                    };
                    assert_eq!(b, expected);
                    agreed += 1;
                }
                (None, Err(_)) => agreed += 1,
                (ours, Ok((_, (tag, _), _))) => {
                    assert_ne!(tag, 1, "at {} with {:#x}", at, flip);
                    assert!(!matches!(ours, Some(Block { data: BlockData::Car(_), .. })));
                }
                (Some(b), Err(_)) => {
                    assert!(!matches!(b.data, BlockData::Car(_)), "at {} with {:#x}", at, flip);
                }
            }
        }
    }
    assert!(agreed > bytes.len());
}

#[test]
fn contract_result_decoding_agrees_with_bincode_on_damaged_payloads() {
    let data = BlockData::ContractResult(ContractResult {
        block_id: 77,
        result: 2.5f64.to_bits(),
        args: vec![1.0f64.to_bits(), (-3.0f64).to_bits(), 0.125f64.to_bits()],
    });
    let bytes = encode_block_data(&data);
    for at in 0..bytes.len() {
        for flip in [0x01u8, 0x02, 0x80, 0xFF] {
            let mut damaged = bytes.clone();
            damaged[at] ^= flip;
            let ours = decode_block_data(&damaged);
            let theirs: Result<(u32, (u32, u64, Vec<u64>)), _> = bincode::deserialize(&damaged);
            match (ours, theirs) {
                (Some(BlockData::ContractResult(res)), Ok((2, (block_id, result, args)))) => {
                    assert_eq!(res, ContractResult { block_id, result, args });
                }
                (None, Err(_)) => {}
                (ours, Ok((tag, _))) => {
                    assert_ne!(tag, 2, "at {} with {:#x}", at, flip);
                    assert!(!matches!(ours, Some(BlockData::ContractResult(_))));
                }
                (ours, Err(_)) => {
                    assert!(
                        !matches!(ours, Some(BlockData::ContractResult(_))),
                        "at {} with {:#x}",
                        at,
                        flip
                    );
                }
            }
        }
    }
}
