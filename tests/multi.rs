use std::cell::Cell;

use esplora_index::address::{
    aggregate, AddressInfo, AggregateMode, Config, Network, Query, ScriptStats, TransactionValue,
    UtxoValue,
};
use esplora_index::hash::Sha256dHash;
use esplora_index::multi::{
    derive_batch, derive_by_index, gap_limit_scan, handle_multiaddr_info, handle_multiaddr_stats,
    handle_multiaddr_utxo, handle_xpub_stats, xpub_multi_or_single, ScanError,
};

const XPUB: &str = "xpub661MyMwAqRbcFtXgS5sYJABqqG9YLmC4Q1Rdap9gSE8NqtwybGhePY2gZ29ESFjqJoCu1Rupje8YtGqsefD265TMg7usUDFdp6W1EGMcet8";
const GENESIS_ADDR: &str = "1A1zP1eP5QGefi2DMPTfTL5SLmv7DivfNa";
const OTHER_ADDR: &str = "17VZNX1SN5NtKa8UQFxwQbFeFc3iqRYhem";
const P2SH_ADDR: &str = "3EktnHQD7RiAE6uzMj2ZifT9YgRrkSgzQX";

fn used_stats() -> ScriptStats {
    ScriptStats { tx_count: 2, funded_txo_count: 1, funded_txo_sum: 5000, spent_txo_count: 1, spent_txo_sum: 5000 }
}

/// Answers stats queries by the order in which they come: the calls whose
/// number is in `used` see activity, all others none.
struct Oracle {
    used: Vec<usize>,
    calls: Cell<usize>,
}

impl Oracle {
    fn new(used: Vec<usize>) -> Oracle {
        Oracle { used, calls: Cell::new(0) }
    }
}

impl Query for Oracle {
    fn stats(&self, _scripthash: &Vec<u8>) -> (ScriptStats, ScriptStats) {
        let n = self.calls.get();
        self.calls.set(n + 1);
        if self.used.contains(&n) {
            (used_stats(), ScriptStats::zero())
        } else {
            (ScriptStats::zero(), ScriptStats::zero())
        }
    }

    fn chain_txs(&self, _scripthash: &Vec<u8>, limit: usize) -> Vec<TransactionValue> {
        let n = limit.min(2);
        (0..n).map(|i| TransactionValue { txid: Sha256dHash { bytes: vec![i as u8; 32] }, status: None }).collect()
    }

    fn mempool_txs(&self, _scripthash: &Vec<u8>, _limit: usize) -> Vec<TransactionValue> {
        vec![TransactionValue { txid: Sha256dHash { bytes: vec![9; 32] }, status: None }]
    }

    fn utxo(&self, _scripthash: &Vec<u8>) -> Vec<UtxoValue> {
        vec![UtxoValue { txid: Sha256dHash { bytes: vec![3; 32] }, vout: 1, value: 5000, status: None }]
    }
}

fn mainnet() -> Config {
    Config { network_type: Network::Bitcoin }
}

fn addresses(infos: &[AddressInfo]) -> Vec<String> {
    infos.iter().map(|i| i.address.clone()).collect()
}

#[test]
fn separator_splits_literal_addresses_in_order() {
    let (addrs, is_xpub) = xpub_multi_or_single("1Axx%7C1Bxx%7C1Cxx");
    assert!(!is_xpub);
    assert_eq!(addrs, vec!["1Axx".to_string(), "1Bxx".to_string(), "1Cxx".to_string()]);
}

#[test]
fn xpub_prefix_gives_xpub_mode() {
    let (addrs, is_xpub) = xpub_multi_or_single(XPUB);
    assert!(is_xpub);
    assert!(addrs.is_empty());
}

#[test]
fn plain_input_is_one_address() {
    let (addrs, is_xpub) = xpub_multi_or_single(GENESIS_ADDR);
    assert!(!is_xpub);
    assert_eq!(addrs, vec![GENESIS_ADDR.to_string()]);
    let (addrs, _) = xpub_multi_or_single("");
    assert_eq!(addrs, vec![String::new()]);
    let (addrs, _) = xpub_multi_or_single("a%7C");
    assert_eq!(addrs, vec!["a".to_string(), String::new()]);
}

#[test]
fn gap_limit_stops_after_twenty_unused() {
    let mut activity = vec![false; 200];
    activity[0] = true;
    activity[5] = true;
    activity[50] = true;
    // the run of unused addresses after index 5 reaches the limit before 50
    let (used, consumed) = gap_limit_scan(&activity);
    assert_eq!(used, vec![0, 5]);
    assert_eq!(consumed, 26);
    let mut close = vec![false; 200];
    close[0] = true;
    close[5] = true;
    close[20] = true;
    let (used, consumed) = gap_limit_scan(&close);
    assert_eq!(used, vec![0, 5, 20]);
    assert_eq!(consumed, 41);
}

#[test]
fn gap_limit_not_reached_consumes_all() {
    let mut activity = vec![false; 30];
    activity[10] = true;
    activity[29] = true;
    let (used, consumed) = gap_limit_scan(&activity);
    assert_eq!(used, vec![10, 29]);
    assert_eq!(consumed, 30);
    assert_eq!(gap_limit_scan(&vec![]), (vec![], 0));
    let (used, consumed) = gap_limit_scan(&vec![false; 25]);
    assert!(used.is_empty());
    assert_eq!(consumed, 20);
}

#[test]
fn malformed_address_is_dropped_from_batch() {
    let oracle = Oracle::new(vec![0, 1, 2]);
    let batch = vec![GENESIS_ADDR.to_string(), "1Bxx".to_string(), OTHER_ADDR.to_string(), P2SH_ADDR.to_string()];
    let infos = handle_multiaddr_stats(batch, &oracle, &mainnet());
    assert_eq!(addresses(&infos), vec![GENESIS_ADDR.to_string(), OTHER_ADDR.to_string(), P2SH_ADDR.to_string()]);
    assert_eq!(oracle.calls.get(), 3);
}

#[test]
fn wrong_network_address_is_dropped() {
    let oracle = Oracle::new(vec![]);
    let testnet = Config { network_type: Network::Testnet };
    let infos = handle_multiaddr_info(vec![GENESIS_ADDR.to_string(), "mipcBbFg9gMiCh81Kj8tqqdgoZub1ZJRfn".to_string()], &oracle, &testnet);
    assert_eq!(addresses(&infos), vec!["mipcBbFg9gMiCh81Kj8tqqdgoZub1ZJRfn".to_string()]);
}

#[test]
fn stats_mode_shape() {
    let oracle = Oracle::new(vec![0]);
    let infos = handle_multiaddr_stats(vec![GENESIS_ADDR.to_string()], &oracle, &mainnet());
    assert_eq!(infos.len(), 1);
    assert_eq!(infos[0].chain_stats, Some(used_stats()));
    assert_eq!(infos[0].mempool_stats, Some(ScriptStats::zero()));
    assert!(infos[0].utxo.is_empty() && infos[0].chain_txs.is_empty() && infos[0].mempool_txs.is_empty());
}

#[test]
fn utxo_mode_shape() {
    let oracle = Oracle::new(vec![0]);
    let infos = handle_multiaddr_utxo(vec![GENESIS_ADDR.to_string()], &oracle, &mainnet());
    assert_eq!(infos.len(), 1);
    assert!(infos[0].chain_stats.is_none() && infos[0].mempool_stats.is_none());
    assert_eq!(infos[0].utxo.len(), 1);
    assert_eq!(infos[0].utxo[0].value, 5000);
    assert!(infos[0].chain_txs.is_empty() && infos[0].mempool_txs.is_empty());
}

#[test]
fn info_mode_shape() {
    let oracle = Oracle::new(vec![0]);
    let infos = handle_multiaddr_info(vec![OTHER_ADDR.to_string()], &oracle, &mainnet());
    assert_eq!(infos.len(), 1);
    assert_eq!(infos[0].chain_stats, Some(used_stats()));
    assert_eq!(infos[0].chain_txs.len(), 2);
    assert_eq!(infos[0].mempool_txs.len(), 1);
    assert!(infos[0].utxo.is_empty());
    let info = aggregate(AggregateMode::Info, "x".to_string(), &vec![0; 32], (ScriptStats::zero(), ScriptStats::zero()), &oracle, &mainnet());
    assert_eq!(info.address, "x");
}

#[test]
fn derived_addresses_are_mainnet_p2pkh() {
    let xpub = XPUB;
    let (addr0, hash0) = derive_by_index(xpub, 0, &mainnet()).unwrap();
    let (addr1, hash1) = derive_by_index(xpub, 1, &mainnet()).unwrap();
    assert!(addr0.starts_with('1'));
    assert_ne!(addr0, addr1);
    assert_eq!(hash0.len(), 32);
    assert_ne!(hash0, hash1);
    let batch = derive_batch(xpub, 2, &mainnet()).unwrap();
    assert_eq!(batch.len(), 100);
    assert_eq!(batch[0], derive_by_index(xpub, 100, &mainnet()).unwrap());
    assert_eq!(batch[99], derive_by_index(xpub, 199, &mainnet()).unwrap());
}

#[test]
fn hardened_index_cannot_be_derived() {
    let xpub = XPUB;
    assert_eq!(derive_by_index(xpub, 0x8000_0000, &mainnet()), Err(ScanError::Derivation { index: 0x8000_0000 }));
    assert_eq!(derive_by_index("xpubnotakey", 3, &mainnet()), Err(ScanError::Derivation { index: 3 }));
}

#[test]
fn xpub_scan_returns_used_addresses_in_order() {
    let xpub = XPUB;
    let oracle = Oracle::new(vec![0, 5, 50]);
    let infos = handle_xpub_stats(xpub, &oracle, &mainnet()).unwrap().records;
    assert_eq!(oracle.calls.get(), 26);
    assert_eq!(infos.len(), 2);
    let oracle = Oracle::new(vec![0, 5, 20]);
    let infos = handle_xpub_stats(xpub, &oracle, &mainnet()).unwrap().records;
    assert_eq!(oracle.calls.get(), 41);
    let expected: Vec<String> = [0u32, 5, 20].iter().map(|i| derive_by_index(xpub, *i, &mainnet()).unwrap().0).collect();
    assert_eq!(addresses(&infos), expected);
}

#[test]
fn xpub_scan_crosses_page_boundary() {
    let xpub = XPUB;
    let oracle = Oracle::new(vec![95, 110]);
    let infos = handle_xpub_stats(xpub, &oracle, &mainnet()).unwrap().records;
    assert_eq!(oracle.calls.get(), 20);
    assert!(infos.is_empty());
    let oracle = Oracle::new((0..19).map(|i| i * 10).collect());
    let infos = handle_xpub_stats(xpub, &oracle, &mainnet()).unwrap().records;
    assert_eq!(infos.len(), 19);
    assert_eq!(oracle.calls.get(), 201);
}

#[test]
fn script_hash_is_sha256_of_output_script() {
    let xpub = XPUB;
    let (addr, hash) = derive_by_index(xpub, 7, &mainnet()).unwrap();
    let parsed = addr.parse::<bitcoin::Address<bitcoin::address::NetworkUnchecked>>().unwrap().assume_checked();
    let digest = <bitcoin::hashes::sha256::Hash as bitcoin::hashes::Hash>::hash(parsed.script_pubkey().as_bytes());
    let expected = bitcoin::hashes::Hash::to_byte_array(digest).to_vec();
    assert_eq!(hash, expected);
    assert_ne!(hash, addr.as_bytes().to_vec());
}

#[test]
fn all_unused_stops_after_twenty_queries() {
    let oracle = Oracle::new(vec![]);
    let scan = handle_xpub_stats(XPUB, &oracle, &mainnet()).unwrap();
    assert!(scan.records.is_empty());
    assert_eq!(scan.observed.len(), 20);
    assert_eq!(oracle.calls.get(), 20);
}

#[test]
fn unused_run_carries_across_pages() {
    let oracle = Oracle::new(vec![85]);
    let scan = handle_xpub_stats(XPUB, &oracle, &mainnet());
    // indices 0..=19 are unused, so the scan stops before 85
    assert_eq!(scan.unwrap().observed.len(), 20);
    // used every 19 indices up to 95; the last run of 20 spans the page boundary at 100
    let oracle = Oracle::new((0..=95).step_by(19).collect());
    let scan = handle_xpub_stats(XPUB, &oracle, &mainnet()).unwrap();
    assert_eq!(scan.records.len(), 6);
    assert_eq!(scan.records[5].address, derive_by_index(XPUB, 95, &mainnet()).unwrap().0);
    assert_eq!(scan.observed.len(), 116);
    assert_eq!(oracle.calls.get(), 116);
}

#[test]
fn derivation_failure_fails_the_scan() {
    let oracle = Oracle::new(vec![0]);
    assert_eq!(handle_xpub_stats("xpubnotakey", &oracle, &mainnet()).err(), Some(ScanError::Derivation { index: 0 }));
    assert_eq!(oracle.calls.get(), 0);
}

#[test]
fn utxo_scan_records_have_no_stats() {
    let oracle = Oracle::new(vec![2]);
    let scan = esplora_index::multi::handle_xpub_utxo(XPUB, &oracle, &mainnet()).unwrap();
    assert_eq!(scan.records.len(), 1);
    assert_eq!(scan.records[0].address, derive_by_index(XPUB, 2, &mainnet()).unwrap().0);
    assert!(scan.records[0].chain_stats.is_none());
    assert_eq!(scan.records[0].utxo.len(), 1);
    let scan = esplora_index::multi::handle_xpub_info(XPUB, &Oracle::new(vec![1]), &mainnet()).unwrap();
    assert_eq!(scan.records[0].chain_stats, Some(used_stats()));
}

#[test]
fn page_of_a_bad_key_fails() {
    assert_eq!(derive_batch("xpubnotakey", 1, &mainnet()).err(), Some(ScanError::Derivation { index: 0 }));
    let page = derive_batch(XPUB, 3, &mainnet()).unwrap();
    assert_eq!(page[0], derive_by_index(XPUB, 200, &mainnet()).unwrap());
}

#[test]
fn derived_addresses_follow_the_configured_network() {
    let testnet = Config { network_type: Network::Testnet };
    let regtest = Config { network_type: Network::Regtest };
    let (main_addr, main_hash) = derive_by_index(XPUB, 4, &mainnet()).unwrap();
    let (test_addr, test_hash) = derive_by_index(XPUB, 4, &testnet).unwrap();
    let (reg_addr, _) = derive_by_index(XPUB, 4, &regtest).unwrap();
    assert!(main_addr.starts_with('1'));
    assert!(test_addr.starts_with('m') || test_addr.starts_with('n'));
    assert_eq!(test_addr, reg_addr);
    // the same key hash: the output script, and so the script hash, agree
    assert_eq!(main_hash, test_hash);
    let oracle = Oracle::new(vec![1]);
    let scan = handle_xpub_stats(XPUB, &oracle, &testnet).unwrap();
    assert_eq!(scan.records.len(), 1);
    assert_eq!(scan.records[0].address, derive_by_index(XPUB, 1, &testnet).unwrap().0);
}
