use block_miner::block::Block;
use block_miner::block::BlockInfo;
use block_miner::block::MinerError;
use block_miner::cycle::mine_block;
use block_miner::cycle::mine_block_at;
use block_miner::difficulty::meets_difficulty;

fn hello_template() -> BlockInfo {
    BlockInfo {
        index: 5,
        previousHash: String::from("abc123"),
        data: String::from("hello"),
        difficulty: 2,
    }
}

#[test]
fn mines_the_hello_template() {
    let mut block = Block::with_timestamp(hello_template(), 1_700_000_000);
    let found = block.mine(2, "miner1");
    assert!(found.is_ok());
    assert_eq!(block.data, "hellominer1");
    assert_eq!(block.hash.len(), 64);
    assert!(block.hash.starts_with("00"));
    assert!(block.hash.chars().all(|c| c.is_ascii_hexdigit()));
    assert_eq!(block.hash, block.calculate_hash());
}

#[test]
fn mines_the_hello_template_to_its_first_nonce() {
    let mut block = Block::with_timestamp(hello_template(), 1_700_000_000);
    assert_eq!(block.mine(2, "miner1"), Ok(()));
    assert_eq!(block.nonce, 30);
    assert_eq!(block.hash, "006ca2add602258a8e9c714b6cfb68dec44153ba76dbeaeb83a7c98dbba9f360");
}

#[test]
fn mining_leaves_the_other_fields_alone() {
    let mut block = Block::with_timestamp(hello_template(), 1_700_000_000);
    assert_eq!(block.mine(2, "miner1"), Ok(()));
    assert_eq!(block.index, 5);
    assert_eq!(block.previousHash, "abc123");
    assert_eq!(block.timestamp, 1_700_000_000);
    assert_eq!(block.difficulty, 2);
}

#[test]
fn no_smaller_nonce_meets_the_difficulty() {
    let mut block = Block::with_timestamp(hello_template(), 1_700_000_000);
    assert_eq!(block.mine(2, "miner1"), Ok(()));
    let mut probe = block.clone();
    for nonce in 0..block.nonce {
        probe.nonce = nonce;
        assert!(!meets_difficulty(&probe.calculate_hash(), 2));
    }
    probe.nonce = block.nonce;
    assert!(meets_difficulty(&probe.calculate_hash(), 2));
}

#[test]
fn mines_difficulty_three() {
    let template = BlockInfo {
        index: 12,
        previousHash: String::from("00aa"),
        data: String::from("payload"),
        difficulty: 3,
    };
    let mut block = Block::with_timestamp(template, 1_234_567_890);
    assert_eq!(block.mine(3, "allankey"), Ok(()));
    assert_eq!(block.nonce, 3728);
    assert_eq!(block.data, "payloadallankey");
    assert_eq!(block.hash, "0004aef428d1018582b887b93fe906358fe05674dc7af7f44c134c115b9cfcbf");
}

#[test]
fn the_marker_is_appended_once_however_long_the_search() {
    for difficulty in 0..4u64 {
        let mut block = Block::with_timestamp(hello_template(), 1_700_000_000);
        assert_eq!(block.mine(difficulty, "miner1"), Ok(()));
        assert_eq!(block.data, "hellominer1");
        assert_eq!(block.data.matches("miner1").count(), 1);
        assert!(block.data.ends_with("miner1"));
    }
}

#[test]
fn an_empty_marker_leaves_the_data_as_it_is() {
    let mut block = Block::with_timestamp(hello_template(), 1_700_000_000);
    assert_eq!(block.mine(1, ""), Ok(()));
    assert_eq!(block.data, "hello");
}

#[test]
fn difficulty_zero_ends_at_nonce_zero() {
    let mut block = Block::with_timestamp(hello_template(), 1_700_000_000);
    assert_eq!(block.mine(0, "miner1"), Ok(()));
    assert_eq!(block.nonce, 0);
    assert_eq!(block.hash, "e16380ceb0c7c4a05df6e82c95ccf1a47812d5c9f2ad63a46d3ba1eb0325cccf");
}

#[test]
fn mining_starts_from_nonce_zero_whatever_the_block_held() {
    let mut block = Block::with_timestamp(hello_template(), 1_700_000_000);
    block.nonce = 31;
    block.hash = String::from("stale");
    assert_eq!(block.mine(2, "miner1"), Ok(()));
    assert_eq!(block.nonce, 30);
    assert_eq!(block.hash, "006ca2add602258a8e9c714b6cfb68dec44153ba76dbeaeb83a7c98dbba9f360");
}

#[test]
fn mining_goes_by_the_difficulty_it_is_given() {
    let mut block = Block::with_timestamp(hello_template(), 1_700_000_000);
    assert_eq!(block.difficulty, 2);
    assert_eq!(block.mine(0, "miner1"), Ok(()));
    assert_eq!(block.nonce, 0);
    assert_eq!(block.difficulty, 2);
}

#[test]
fn search_goes_on_from_the_present_nonce() {
    let mut block = Block::with_timestamp(hello_template(), 1_700_000_000);
    block.data = String::from("hellominer1");
    block.nonce = 100;
    assert_eq!(block.search(2), Ok(()));
    assert_eq!(block.nonce, 215);
    assert_eq!(block.hash, "003ef653262f5b2857c42d714b9512855b240164691de7e8db7525bbd85c76d2");
    assert_eq!(block.data, "hellominer1");
}

#[test]
fn search_with_difficulty_zero_keeps_the_nonce() {
    let mut block = Block::with_timestamp(hello_template(), 1_700_000_000);
    block.nonce = 77;
    assert_eq!(block.search(0), Ok(()));
    assert_eq!(block.nonce, 77);
    assert_eq!(block.hash, block.calculate_hash());
}

#[test]
fn search_fails_when_the_nonces_run_out() {
    let mut block = Block {
        index: 9,
        previousHash: String::from("ff"),
        timestamp: 5,
        data: String::from("tail"),
        difficulty: 64,
        nonce: u64::MAX - 3,
        hash: String::new(),
    };
    assert_eq!(block.search(64), Err(MinerError::NonceExhausted));
    assert_eq!(block.nonce, u64::MAX);
    assert_eq!(block.hash, "c2bbb9fad457442a7a492a5af2b5969fa8d410dd45a85357d35dcac858db55cf");
    assert_eq!(block.data, "tail");
}

#[test]
fn search_fails_on_a_difficulty_beyond_the_hash_length() {
    let mut block = Block::with_timestamp(hello_template(), 1_700_000_000);
    block.nonce = u64::MAX;
    assert_eq!(block.search(65), Err(MinerError::NonceExhausted));
    assert_eq!(block.nonce, u64::MAX);
}

#[test]
fn a_fresh_block_copies_the_template() {
    let block = Block::with_timestamp(hello_template(), 1_700_000_000);
    assert_eq!(block.index, 5);
    assert_eq!(block.previousHash, "abc123");
    assert_eq!(block.timestamp, 1_700_000_000);
    assert_eq!(block.data, "hello");
    assert_eq!(block.difficulty, 2);
    assert_eq!(block.nonce, 0);
    assert_eq!(block.hash, "");
}

#[test]
fn a_block_from_the_clock_copies_the_template() {
    let made = Block::from_block_info(hello_template());
    let block = made.expect("the clock stands after the epoch");
    assert_eq!(block.index, 5);
    assert_eq!(block.previousHash, "abc123");
    assert_eq!(block.data, "hello");
    assert_eq!(block.difficulty, 2);
    assert_eq!(block.nonce, 0);
    assert_eq!(block.hash, "");
    assert!(block.timestamp > 1_600_000_000);
}

#[test]
fn a_fresh_block_projects_back_to_its_template() {
    let payload = Block::with_timestamp(hello_template(), 1_700_000_000).to_dict();
    assert_eq!(payload.index, 5);
    assert_eq!(payload.previousHash, "abc123");
    assert_eq!(payload.data, "hello");
    assert_eq!(payload.difficulty, 2);
}

#[test]
fn a_mined_block_projects_to_the_template_with_the_marker() {
    let mut block = Block::with_timestamp(hello_template(), 1_700_000_000);
    assert_eq!(block.mine(2, "miner1"), Ok(()));
    let payload = block.to_dict();
    assert_eq!(payload.index, 5);
    assert_eq!(payload.previousHash, "abc123");
    assert_eq!(payload.data, "hellominer1");
    assert_eq!(payload.difficulty, 2);
}

#[test]
fn a_copy_holds_the_same_fields() {
    let mut block = Block::with_timestamp(hello_template(), 1_700_000_000);
    assert_eq!(block.mine(1, "k"), Ok(()));
    let copy = block.clone();
    assert_eq!(copy.index, block.index);
    assert_eq!(copy.previousHash, block.previousHash);
    assert_eq!(copy.timestamp, block.timestamp);
    assert_eq!(copy.data, block.data);
    assert_eq!(copy.difficulty, block.difficulty);
    assert_eq!(copy.nonce, block.nonce);
    assert_eq!(copy.hash, block.hash);
    let template = hello_template().clone();
    assert_eq!(template.data, "hello");
    assert_eq!(template.previousHash, "abc123");
}

#[test]
fn the_mining_phase_at_a_given_time() {
    let mined = mine_block_at(hello_template(), 1_700_000_000, "miner1");
    let block = mined.expect("difficulty two is within reach");
    assert_eq!(block.nonce, 30);
    assert_eq!(block.timestamp, 1_700_000_000);
    assert_eq!(block.data, "hellominer1");
    assert_eq!(block.hash, "006ca2add602258a8e9c714b6cfb68dec44153ba76dbeaeb83a7c98dbba9f360");
    assert_eq!(block.difficulty, 2);
}

#[test]
fn the_mining_phase_uses_the_difficulty_of_the_template() {
    let template = BlockInfo {
        index: 1,
        previousHash: String::from("prev"),
        data: String::from("data"),
        difficulty: 1,
    };
    let block = mine_block_at(template, 1, "key").expect("difficulty one is within reach");
    assert_eq!(block.nonce, 5);
    assert_eq!(block.hash, "02e08ad7447c2458e5e7a838f56701cd0b7ba5048c954afbbe9c4cebee00a509");
}

#[test]
fn the_mining_phase_by_the_clock() {
    let block = mine_block(hello_template(), "miner1").expect("the clock stands after the epoch");
    assert_eq!(block.data, "hellominer1");
    assert!(block.hash.starts_with("00"));
    assert_eq!(block.hash, block.calculate_hash());
    assert!(block.timestamp > 1_600_000_000);
    let mut probe = block.clone();
    for nonce in 0..block.nonce {
        probe.nonce = nonce;
        assert!(!meets_difficulty(&probe.calculate_hash(), 2));
    }
}

#[test]
fn a_block_from_a_reading_of_the_clock() {
    let block = Block::from_reading(hello_template(), Some(1_700_000_000))
        .expect("there is a reading");
    assert_eq!(block.index, 5);
    assert_eq!(block.previousHash, "abc123");
    assert_eq!(block.timestamp, 1_700_000_000);
    assert_eq!(block.data, "hello");
    assert_eq!(block.difficulty, 2);
    assert_eq!(block.nonce, 0);
    assert_eq!(block.hash, "");
}

#[test]
fn no_block_without_a_reading_of_the_clock() {
    let made = Block::from_reading(hello_template(), None);
    assert!(matches!(made, Err(MinerError::ClockUnavailable)));
}

#[test]
fn a_reading_of_zero_is_a_reading() {
    let block = Block::from_reading(hello_template(), Some(0)).expect("there is a reading");
    assert_eq!(block.timestamp, 0);
}
