use blockchain::datatypes::{Block, BlockData, Car, ContractResult, RevPolish};
use blockchain::error::VerifyError;
use blockchain::hashing::{
    check_difficulty, compute_hash, hash_prefix_bytes, is_zero_hash, same_hash, verify_block,
    verify_broadcasted_block, verify_hash, verify_new_block,
};
use sha2::{Digest, Sha256};

fn hash(hex: &str) -> [u8; 32] {
    let digits: Vec<u8> = hex.chars().map(|c| c.to_digit(16).unwrap() as u8).collect();
    let mut out = [0u8; 32];
    for i in 0..32 {
        out[i] = digits[2 * i] * 16 + digits[2 * i + 1];
    }
    out
}

const HASH_0: &str = "0000007518d7307489dc0c1ccf30fa63c08fd6955a89e16b3e28025db28632d6";
const HASH_1: &str = "0000007cf99098779efeb46259406985b1cf3c5a5377169b77cb01efb15709b6";
const HASH_2: &str = "00000043fbb35e5b14af8ccf36d23474d696ba6b244b7bfeb965dd1bd0c9cb71";

fn block_0() -> Block {
    Block {
        hash: hash(HASH_0),
        id: 0,
        prev_hash: [0; 32],
        nonce: 19499942,
        data: BlockData::Car(Car::new(
            Some("Max".to_string()),
            Some("Bravo".to_string()),
            Some(42),
            None,
        )),
        mined_by: "n1".to_string(),
    }
}

fn block_1() -> Block {
    Block {
        hash: hash(HASH_1),
        id: 1,
        prev_hash: hash(HASH_0),
        nonce: 8060790,
        data: BlockData::Contract(vec![
            RevPolish::Operation('+'),
            RevPolish::Number(0.0f64.to_bits()),
            RevPolish::Number(1.0f64.to_bits()),
        ]),
        mined_by: "n1".to_string(),
    }
}

fn block_2() -> Block {
    Block {
        hash: hash(HASH_2),
        id: 2,
        prev_hash: hash(HASH_1),
        nonce: 7667386,
        data: BlockData::ContractResult(ContractResult {
            block_id: 1,
            result: 1.0f64.to_bits(),
            args: vec![],
        }),
        mined_by: "n1".to_string(),
    }
}

#[test]
fn hash_input_is_id_predecessor_payload_miner() {
    let block = block_0();
    let mut expected: Vec<u8> = vec![0, 0, 0, 0];
    expected.extend([0u8; 32]);
    expected.extend(bincode::serialize(&(1u32, ("Max", "Bravo", 42u32, ("", "", "")))).unwrap());
    expected.extend(bincode::serialize("n1").unwrap());
    assert_eq!(hash_prefix_bytes(&block), expected);

    let block = block_1();
    let prefix = hash_prefix_bytes(&block);
    assert_eq!(&prefix[..4], &[0u8, 0, 0, 1]);
    assert_eq!(&prefix[4..36], &hash(HASH_0));
}

#[test]
fn hash_is_sha256_of_the_input_and_the_nonce() {
    for block in [block_0(), block_1(), block_2()] {
        let mut hasher = Sha256::new();
        hasher.update(hash_prefix_bytes(&block));
        hasher.update(block.nonce.to_be_bytes());
        let expected: [u8; 32] = hasher.finalize().into();
        assert_eq!(compute_hash(&block), expected);
        assert_eq!(compute_hash(&block), block.hash);
    }
}

#[test]
fn hash_of_known_bytes() {
    let mut block = Block::new_empty();
    block.nonce = 0;
    let mut input = hash_prefix_bytes(&block);
    input.extend([0u8, 0, 0, 0]);
    assert_eq!(input.len(), 4 + 32 + 4 + 8 + 8 + 4 + 24 + 8 + 4);
    assert_eq!(input, vec![0u8, 0, 0, 0, 0, 0, 0, 0, 0, 0, 0, 0, 0, 0, 0, 0, 0, 0, 0, 0, 0, 0, 0, 0,
        0, 0, 0, 0, 0, 0, 0, 0, 0, 0, 0, 0, 1, 0, 0, 0, 0, 0, 0, 0, 0, 0, 0, 0, 0, 0, 0, 0, 0, 0,
        0, 0, 0, 0, 0, 0, 0, 0, 0, 0, 0, 0, 0, 0, 0, 0, 0, 0, 0, 0, 0, 0, 0, 0, 0, 0, 0, 0, 0, 0,
        0, 0, 0, 0, 0, 0, 0, 0, 0, 0, 0, 0]);
    let expected: [u8; 32] = Sha256::digest(&input).into();
    assert_eq!(compute_hash(&block), expected);
    assert_ne!(compute_hash(&block), [0u8; 32]);
}

#[test]
fn hash_depends_on_every_hashed_field() {
    let base = compute_hash(&block_0());
    let mut other = block_0();
    other.id = 1;
    assert_ne!(compute_hash(&other), base);
    let mut other = block_0();
    other.prev_hash[31] = 1;
    assert_ne!(compute_hash(&other), base);
    let mut other = block_0();
    other.nonce += 1;
    assert_ne!(compute_hash(&other), base);
    let mut other = block_0();
    other.mined_by = "n2".to_string();
    assert_ne!(compute_hash(&other), base);
    let mut other = block_0();
    other.data = BlockData::Car(Car::new(
        Some("Max".to_string()),
        Some("Bravo".to_string()),
        Some(43),
        None,
    ));
    assert_ne!(compute_hash(&other), base);
    let mut other = block_0();
    other.hash = [9; 32];
    assert_eq!(compute_hash(&other), base);
}

#[test]
fn difficulty_predicate() {
    let mut digest = [0xFFu8; 32];
    digest[0] = 0;
    digest[1] = 0;
    digest[2] = 0;
    digest[3] = 128;
    assert!(check_difficulty(&digest));
    digest[3] = 129;
    assert!(!check_difficulty(&digest));
    digest[3] = 0;
    assert!(check_difficulty(&digest));
    digest[2] = 1;
    assert!(!check_difficulty(&digest));
    digest[2] = 0;
    digest[1] = 1;
    assert!(!check_difficulty(&digest));
    digest[1] = 0;
    digest[0] = 1;
    assert!(!check_difficulty(&digest));
    assert!(check_difficulty(&[0u8; 32]));
    assert!(check_difficulty(&hash(HASH_0)));
    assert!(check_difficulty(&hash(HASH_1)));
    assert!(check_difficulty(&hash(HASH_2)));
}

#[test]
fn hash_comparison() {
    let a = hash(HASH_0);
    let mut b = a;
    assert!(same_hash(&a, &b));
    b[31] ^= 1;
    assert!(!same_hash(&a, &b));
    b = a;
    b[0] ^= 1;
    assert!(!same_hash(&a, &b));
    assert!(is_zero_hash(&[0; 32]));
    assert!(!is_zero_hash(&a));
    let mut almost = [0u8; 32];
    almost[31] = 1;
    assert!(!is_zero_hash(&almost));
}

#[test]
fn sealed_blocks_pass() {
    assert_eq!(verify_block(&block_0()), Ok(()));
    assert_eq!(verify_block(&block_1()), Ok(()));
    assert_eq!(verify_block(&block_2()), Ok(()));
}

#[test]
fn wrong_stored_hash_is_a_mismatch() {
    let mut block = block_0();
    block.hash[31] ^= 1;
    assert_eq!(verify_block(&block), Err(VerifyError::HashMismatch));
    let mut block = block_0();
    block.hash = hash(HASH_1);
    assert_eq!(verify_block(&block), Err(VerifyError::HashMismatch));
    let mut block = block_0();
    block.nonce += 1;
    assert_eq!(verify_block(&block), Err(VerifyError::HashMismatch));
    let mut block = block_0();
    block.mined_by = "n2".to_string();
    assert_eq!(verify_block(&block), Err(VerifyError::HashMismatch));
}

#[test]
fn true_hash_that_is_too_large_fails_the_difficulty() {
    let mut block = block_0();
    block.nonce = 1;
    block.hash = compute_hash(&block);
    assert!(!check_difficulty(&block.hash));
    assert_eq!(verify_block(&block), Err(VerifyError::DifficultyUnmet));
}

#[test]
fn new_block_must_have_the_length_as_id() {
    assert_eq!(verify_new_block(&block_0(), &vec![]), Ok(()));
    assert_eq!(verify_new_block(&block_1(), &vec![block_0()]), Ok(()));
    assert_eq!(verify_new_block(&block_2(), &vec![block_0(), block_1()]), Ok(()));
    assert_eq!(verify_new_block(&block_1(), &vec![]), Err(VerifyError::IdGap));
    assert_eq!(verify_new_block(&block_0(), &vec![block_0()]), Err(VerifyError::IdGap));
    assert_eq!(verify_new_block(&block_2(), &vec![block_0()]), Err(VerifyError::IdGap));
}

#[test]
fn new_block_must_name_the_last_hash() {
    let mut block = block_1();
    block.prev_hash = [0; 32];
    assert_eq!(verify_new_block(&block, &vec![block_0()]), Err(VerifyError::PrevHashMismatch));
    let mut first = block_0();
    first.prev_hash[0] = 1;
    assert_eq!(verify_new_block(&first, &vec![]), Err(VerifyError::PrevHashMismatch));
    let mut other = block_0();
    other.hash[5] ^= 1;
    assert_eq!(verify_new_block(&block_1(), &vec![other]), Err(VerifyError::PrevHashMismatch));
}

#[test]
fn new_block_must_be_sealed() {
    let mut block = block_1();
    block.nonce = 5;
    assert_eq!(verify_new_block(&block, &vec![block_0()]), Err(VerifyError::HashMismatch));
    block.hash = compute_hash(&block);
    assert_eq!(verify_new_block(&block, &vec![block_0()]), Err(VerifyError::DifficultyUnmet));
}

#[test]
fn broadcasted_block_names_the_block_before_it() {
    let chain = vec![block_0(), block_1(), block_2()];
    assert_eq!(verify_broadcasted_block(&chain[0], &chain), Ok(()));
    assert_eq!(verify_broadcasted_block(&chain[1], &chain), Ok(()));
    assert_eq!(verify_broadcasted_block(&chain[2], &chain), Ok(()));

    let mut block = block_2();
    block.prev_hash = hash(HASH_0);
    assert_eq!(verify_broadcasted_block(&block, &chain), Err(VerifyError::PrevHashMismatch));
    let mut block = block_0();
    block.prev_hash = hash(HASH_0);
    assert_eq!(verify_broadcasted_block(&block, &chain), Err(VerifyError::PrevHashMismatch));
}

#[test]
fn broadcasted_block_needs_its_predecessor_in_the_chain() {
    assert_eq!(verify_broadcasted_block(&block_0(), &vec![]), Ok(()));
    assert_eq!(verify_broadcasted_block(&block_1(), &vec![block_0()]), Ok(()));
    assert_eq!(verify_broadcasted_block(&block_1(), &vec![]), Err(VerifyError::IdGap));
    assert_eq!(verify_broadcasted_block(&block_2(), &vec![block_0()]), Err(VerifyError::IdGap));
    let mut far = block_2();
    far.id = u32::MAX;
    assert_eq!(verify_broadcasted_block(&far, &vec![block_0()]), Err(VerifyError::IdGap));
}

#[test]
fn broadcasted_block_must_be_sealed() {
    let chain = vec![block_0(), block_1()];
    let mut block = block_1();
    block.hash[9] ^= 4;
    assert_eq!(verify_broadcasted_block(&block, &chain), Err(VerifyError::HashMismatch));
    let mut block = block_1();
    block.nonce = 0;
    block.hash = compute_hash(&block);
    assert_eq!(verify_broadcasted_block(&block, &chain), Err(VerifyError::DifficultyUnmet));
}

#[test]
fn stored_hash_against_computed_hash() {
    let sealed = hash(HASH_0);
    assert_eq!(verify_hash(&sealed, &sealed), Ok(()));
    assert_eq!(verify_hash(&[0; 32], &[0; 32]), Ok(()));
    assert_eq!(verify_hash(&sealed, &hash(HASH_1)), Err(VerifyError::HashMismatch));
    assert_eq!(verify_hash(&[0xFF; 32], &sealed), Err(VerifyError::HashMismatch));
    assert_eq!(verify_hash(&sealed, &[0xFF; 32]), Err(VerifyError::HashMismatch));
    assert_eq!(verify_hash(&[0xFF; 32], &[0xFF; 32]), Err(VerifyError::DifficultyUnmet));
    let mut large = [0u8; 32];
    large[3] = 129;
    assert_eq!(verify_hash(&large, &large), Err(VerifyError::DifficultyUnmet));
    large[3] = 128;
    assert_eq!(verify_hash(&large, &large), Ok(()));
}
