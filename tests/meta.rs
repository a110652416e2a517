use esplora_index::address::{AddressInfo, ScriptStats, TransactionValue};
use esplora_index::chain::{BlockStatus, HeaderList};
use esplora_index::hash::Sha256dHash;
use esplora_index::meta::{BlockHashInfo, BlockInfo, BlockMeta, BlockValue, MetaError, MetaField};

fn value(text: &str) -> serde_json::Value {
    serde_json::from_str(text).unwrap()
}

#[test]
fn getblock_reply_is_read() {
    let meta = BlockMeta::parse_getblock(value(r#"{"nTx": 2500, "size": 1200000, "weight": 3990000, "hash": "00"}"#)).unwrap();
    assert_eq!(meta, BlockMeta { tx_count: 2500, size: 1200000, weight: 3990000 });
}

#[test]
fn getblock_reply_errors() {
    let missing = BlockMeta::parse_getblock(value(r#"{"size": 1, "weight": 4}"#));
    assert_eq!(missing, Err(MetaError::Missing(MetaField::TxCount)));
    let not_number = BlockMeta::parse_getblock(value(r#"{"nTx": 1, "size": "big", "weight": 4}"#));
    assert_eq!(not_number, Err(MetaError::NotANumber(MetaField::Size)));
    let no_weight = BlockMeta::parse_getblock(value(r#"{"nTx": 1, "size": 2}"#));
    assert_eq!(no_weight, Err(MetaError::Missing(MetaField::Weight)));
    assert_eq!(BlockMeta::parse_getblock(value("[]")), Err(MetaError::Missing(MetaField::TxCount)));
}

#[test]
fn large_numbers_saturate() {
    let meta = BlockMeta::from_fields(Some(Some(1 << 40)), Some(Some(7)), Some(Some(u32::MAX as u64))).unwrap();
    assert_eq!(meta, BlockMeta { tx_count: u32::MAX, size: 7, weight: u32::MAX });
    assert_eq!(BlockMeta::from_fields(Some(None), None, None), Err(MetaError::NotANumber(MetaField::TxCount)));
}

#[test]
fn address_records_have_one_shape() {
    let stats = (ScriptStats::zero(), ScriptStats::zero());
    let full = AddressInfo::new("a".to_string(), stats, vec![TransactionValue { txid: Sha256dHash::null(), status: None }], vec![]);
    assert!(full.chain_stats.is_some() && full.mempool_stats.is_some() && full.utxo.is_empty());
    assert_eq!(full.chain_txs.len(), 1);
    let only_stats = AddressInfo::new_stats("b".to_string(), stats);
    assert!(only_stats.chain_stats.is_some() && only_stats.chain_txs.is_empty());
    let only_utxo = AddressInfo::new_utxo("c".to_string(), vec![]);
    assert!(only_utxo.chain_stats.is_none() && only_utxo.mempool_stats.is_none());
    assert!(ScriptStats::zero().is_empty());
    let mut used = ScriptStats::zero();
    used.spent_txo_sum = 1;
    assert!(!used.is_empty());
}

#[test]
fn block_records() {
    let block = BlockValue {
        id: Sha256dHash::null(),
        height: 3,
        version: 1,
        timestamp: 10,
        tx_count: 1,
        size: 285,
        weight: 1140,
        merkle_root: Sha256dHash::null(),
        previousblockhash: None,
        nonce: 0,
        bits: 0,
    };
    let info = BlockInfo::new(block, vec![]);
    assert_eq!(info.block.height, 3);
    let hashes = BlockHashInfo::new("00ab".to_string(), vec![Sha256dHash::null()]);
    assert_eq!(hashes.block, "00ab");
    assert_eq!(hashes.transactions.len(), 1);
    let confirmed = BlockStatus::confirmed(5, None);
    assert!(confirmed.in_best_chain);
    assert_eq!(confirmed.height, Some(5));
    let orphaned = BlockStatus::orphaned();
    assert!(!orphaned.in_best_chain && orphaned.height.is_none());
    assert_eq!(HeaderList::empty().len(), 0);
}

#[test]
fn negative_counts_read_as_zero() {
    let meta = BlockMeta::parse_getblock(value(r#"{"nTx": -3, "size": 10, "weight": 40}"#)).unwrap();
    assert_eq!(meta, BlockMeta { tx_count: 0, size: 10, weight: 40 });
    let fractional = BlockMeta::parse_getblock(value(r#"{"nTx": 1.5, "size": 10, "weight": 40}"#));
    assert_eq!(fractional, Err(MetaError::NotANumber(MetaField::TxCount)));
}
