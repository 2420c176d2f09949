use gorpcoin::{
    difficulty_function, has_valid_prefix, GorpcoinBlock, GorpcoinBlockData, GorpcoinBlockchain,
    GorpcoinError, Transaction,
};
use std::collections::HashMap;

fn empty_data() -> GorpcoinBlockData {
    GorpcoinBlockData::new(HashMap::new())
}

fn block(previous_hash: Vec<u8>, hash: Vec<u8>) -> GorpcoinBlock {
    GorpcoinBlock::new(previous_hash, hash, empty_data())
}

fn block_with(previous_hash: Vec<u8>, hash: Vec<u8>, records: Vec<(u64, u64)>) -> GorpcoinBlock {
    let mut transactions = HashMap::new();
    for (key, total) in records {
        transactions.insert(key, Transaction::new(vec![], total));
    }
    GorpcoinBlock::new(previous_hash, hash, GorpcoinBlockData::new(transactions))
}

#[test]
fn test_difficulty_function() {
    assert_eq!(difficulty_function(0), 1);
    assert_eq!(difficulty_function(10), 2);
    assert_eq!(difficulty_function(50), 2);
    assert_eq!(difficulty_function(100), 3);
}

#[test]
fn difficulty_steps_at_powers_of_ten_minus_two() {
    assert_eq!(difficulty_function(1), 1);
    assert_eq!(difficulty_function(7), 1);
    assert_eq!(difficulty_function(8), 2);
    assert_eq!(difficulty_function(97), 2);
    assert_eq!(difficulty_function(98), 3);
    assert_eq!(difficulty_function(998), 4);
    assert_eq!(difficulty_function(usize::MAX), 20);
}

#[test]
fn difficulty_never_decreases() {
    for n in 0..2000usize {
        assert!(difficulty_function(n) <= difficulty_function(n + 1));
    }
}

#[test]
fn prefix_counts_leading_bits() {
    assert!(has_valid_prefix(&[0x7f], 1));
    assert!(!has_valid_prefix(&[0x80], 1));
    assert!(has_valid_prefix(&[0x00, 0x3f], 10));
    assert!(!has_valid_prefix(&[0x00, 0x40], 10));
    assert!(has_valid_prefix(&[0x00], 8));
    assert!(!has_valid_prefix(&[0x00], 9));
    assert!(has_valid_prefix(&[], 0));
    assert!(!has_valid_prefix(&[], 1));
}

#[test]
fn empty_chain_points_at_sentinel() {
    let chain = GorpcoinBlockchain::new();
    assert_eq!(chain.len(), 0);
    assert!(chain.blocks().is_empty());
    assert_eq!(chain.last_hash(), vec![0]);
    assert_eq!(chain.current_difficulty(), 1);
}

#[test]
fn genesis_then_stale_block() {
    let mut chain = GorpcoinBlockchain::new();
    assert_eq!(chain.add_block(block(vec![0], vec![0x01, 0xaa])), Ok(()));
    assert_eq!(chain.len(), 1);
    assert_eq!(
        chain.add_block(block(vec![0x55], vec![0x02, 0xbb])),
        Err(GorpcoinError::InvalidPreviousHash)
    );
    assert_eq!(chain.len(), 1);
}

#[test]
fn append_moves_the_tip() {
    let mut chain = GorpcoinBlockchain::new();
    assert_eq!(chain.add_block(block(vec![0], vec![0x10, 0x01])), Ok(()));
    assert_eq!(chain.last_hash(), vec![0x10, 0x01]);
    assert_eq!(chain.add_block(block(vec![0x10, 0x01], vec![0x20, 0x02])), Ok(()));
    assert_eq!(chain.len(), 2);
    assert_eq!(chain.last_hash(), vec![0x20, 0x02]);
    assert_eq!(chain.blocks()[0].hash(), &vec![0x10, 0x01]);
    assert_eq!(chain.blocks()[1].previous_hash(), &vec![0x10, 0x01]);
}

#[test]
fn hash_failing_difficulty_is_refused() {
    let mut chain = GorpcoinBlockchain::new();
    assert_eq!(
        chain.add_block(block(vec![0], vec![0x80])),
        Err(GorpcoinError::IncorrectDifficulty)
    );
    assert_eq!(chain.len(), 0);
    assert_eq!(chain.last_hash(), vec![0]);
}

#[test]
fn difficulty_is_checked_before_linkage() {
    let mut chain = GorpcoinBlockchain::new();
    assert_eq!(
        chain.add_block(block(vec![9], vec![0xff])),
        Err(GorpcoinError::IncorrectDifficulty)
    );
    assert_eq!(chain.len(), 0);
}

#[test]
fn duplicate_submission_is_refused() {
    let mut chain = GorpcoinBlockchain::new();
    let b = block(vec![0], vec![0x01]);
    assert_eq!(chain.add_block(b.clone()), Ok(()));
    assert_eq!(chain.add_block(b), Err(GorpcoinError::InvalidPreviousHash));
    assert_eq!(chain.len(), 1);
}

#[test]
fn difficulty_rises_with_length() {
    let mut chain = GorpcoinBlockchain::new();
    let mut tip = vec![0u8];
    for i in 0..8u8 {
        let hash = vec![0x00, i + 1];
        assert_eq!(chain.add_block(block(tip.clone(), hash.clone())), Ok(()));
        tip = hash;
    }
    assert_eq!(chain.current_difficulty(), 2);
    assert_eq!(
        chain.add_block(block(tip.clone(), vec![0x40, 0x00])),
        Err(GorpcoinError::IncorrectDifficulty)
    );
    assert_eq!(chain.add_block(block(tip, vec![0x3f, 0x00])), Ok(()));
    assert_eq!(chain.len(), 9);
}

#[test]
fn no_records_passes_only_zero_spend() {
    let mut chain = GorpcoinBlockchain::new();
    assert_eq!(chain.add_block(block(vec![0], vec![0x01])), Ok(()));
    assert!(chain.is_transaction_valid(&Transaction::new(vec![1, 2], 0)));
    assert!(!chain.is_transaction_valid(&Transaction::new(vec![1, 2], 1)));
    assert!(GorpcoinBlockchain::new().is_transaction_valid(&Transaction::new(vec![], 0)));
    assert!(!GorpcoinBlockchain::new().is_transaction_valid(&Transaction::new(vec![], 5)));
}

#[test]
fn balance_sums_matches_over_all_blocks() {
    let mut chain = GorpcoinBlockchain::new();
    assert_eq!(chain.add_block(block_with(vec![0], vec![0x01], vec![(1, 30), (2, 5)])), Ok(()));
    assert_eq!(chain.add_block(block_with(vec![0x01], vec![0x02], vec![(1, 10), (3, 7)])), Ok(()));
    // key 1 matches in both blocks: 30 + 10; key 3: 7; key 9 matches nothing
    assert!(chain.is_transaction_valid(&Transaction::new(vec![1, 3, 9], 47)));
    assert!(!chain.is_transaction_valid(&Transaction::new(vec![1, 3, 9], 48)));
    // an input named twice is counted twice
    assert!(chain.is_transaction_valid(&Transaction::new(vec![2, 2], 10)));
    assert!(!chain.is_transaction_valid(&Transaction::new(vec![2, 2], 11)));
}

#[test]
fn balance_past_u64_max_covers_any_spend() {
    let mut chain = GorpcoinBlockchain::new();
    assert_eq!(chain.add_block(block_with(vec![0], vec![0x01], vec![(1, u64::MAX)])), Ok(()));
    assert!(chain.is_transaction_valid(&Transaction::new(vec![1, 1], u64::MAX)));
    assert!(!chain.is_transaction_valid(&Transaction::new(vec![2], 1)));
}

#[test]
fn accessors_return_fields() {
    let t = Transaction::new(vec![4, 5], 12);
    assert_eq!(t.inputs(), &vec![4, 5]);
    assert_eq!(t.output_total(), 12);
    let b = block_with(vec![7], vec![8], vec![(3, 9)]);
    assert_eq!(b.data().transactions().get(&3).map(|r| r.output_total()), Some(9));
    assert_eq!(b.previous_hash(), &vec![7]);
}
