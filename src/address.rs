//! Per-address result records and the three aggregation strategies.

use vstd::prelude::*;

use crate::chain::BlockId;
use crate::hash::Sha256dHash;

verus! {

/// Number of confirmed transactions fetched for one address.
pub const CHAIN_TXS_PER_PAGE: usize = 25;

/// Largest number of unconfirmed transactions fetched for one address.
pub const MAX_MEMPOOL_TXS: usize = 50;

/// The network whose address format a request uses.
#[derive(Clone, Copy, Debug, PartialEq, Eq, Structural)]
pub enum Network {
    Bitcoin,
    Testnet,
    Signet,
    Regtest,
}

/// Settings that the resolution and aggregation steps read.
pub struct Config {
    pub network_type: Network,
}

/// Activity of a script hash in one domain (confirmed or unconfirmed).
#[derive(Clone, Copy, Debug, PartialEq, Eq, Structural)]
pub struct ScriptStats {
    pub tx_count: usize,
    pub funded_txo_count: usize,
    pub funded_txo_sum: u64,
    pub spent_txo_count: usize,
    pub spent_txo_sum: u64,
}

impl ScriptStats {
    /// No transaction and no funds in this domain.
    pub open spec fn is_empty_spec(&self) -> bool {
        self.tx_count == 0 && self.funded_txo_count == 0 && self.funded_txo_sum == 0
            && self.spent_txo_count == 0 && self.spent_txo_sum == 0
    }

    /// Statistics with nothing counted.
    pub fn zero() -> (r: ScriptStats)
        ensures
            r.is_empty_spec(),
    {
        ScriptStats {
            tx_count: 0,
            funded_txo_count: 0,
            funded_txo_sum: 0,
            spent_txo_count: 0,
            spent_txo_sum: 0,
        }
    }

    pub fn is_empty(&self) -> (r: bool)
        ensures
            r == self.is_empty_spec(),
    {
        self.tx_count == 0 && self.funded_txo_count == 0 && self.funded_txo_sum == 0
            && self.spent_txo_count == 0 && self.spent_txo_sum == 0
    }
}

/// A transaction as handed to clients, with the block that confirms it, if any.
pub struct TransactionValue {
    pub txid: Sha256dHash,
    pub status: Option<BlockId>,
}

/// An unspent output as handed to clients.
pub struct UtxoValue {
    pub txid: Sha256dHash,
    pub vout: u32,
    pub value: u64,
    pub status: Option<BlockId>,
}

/// What is known of one address: exactly one of three shapes is filled.
pub struct AddressInfo {
    pub address: String,
    pub chain_stats: Option<ScriptStats>,
    pub mempool_stats: Option<ScriptStats>,
    pub utxo: Vec<UtxoValue>,
    pub chain_txs: Vec<TransactionValue>,
    pub mempool_txs: Vec<TransactionValue>,
}

impl AddressInfo {
    /// Full record: both statistics and both transaction lists.
    pub fn new(
        address: String,
        stats: (ScriptStats, ScriptStats),
        chain_txs: Vec<TransactionValue>,
        mempool_txs: Vec<TransactionValue>,
    ) -> (r: AddressInfo)
        ensures
            r.address@ == address@,
            r.chain_stats == Some(stats.0),
            r.mempool_stats == Some(stats.1),
            r.utxo@.len() == 0,
            r.chain_txs@ == chain_txs@,
            r.mempool_txs@ == mempool_txs@,
    {
        AddressInfo {
            address,
            chain_stats: Some(stats.0),
            mempool_stats: Some(stats.1),
            utxo: Vec::new(),
            chain_txs,
            mempool_txs,
        }
    }

    /// Statistics only.
    pub fn new_stats(address: String, stats: (ScriptStats, ScriptStats)) -> (r: AddressInfo)
        ensures
            r.address@ == address@,
            r.has_shape(AggregateMode::Stats),
            r.chain_stats == Some(stats.0),
            r.mempool_stats == Some(stats.1),
    {
        AddressInfo {
            address,
            utxo: Vec::new(),
            chain_stats: Some(stats.0),
            mempool_stats: Some(stats.1),
            chain_txs: Vec::new(),
            mempool_txs: Vec::new(),
        }
    }

    /// Unspent outputs only.
    pub fn new_utxo(address: String, utxos: Vec<UtxoValue>) -> (r: AddressInfo)
        ensures
            r.address@ == address@,
            r.has_shape(AggregateMode::Utxo),
            r.utxo@ == utxos@,
    {
        AddressInfo {
            address,
            utxo: utxos,
            chain_stats: None,
            mempool_stats: None,
            chain_txs: Vec::new(),
            mempool_txs: Vec::new(),
        }
    }

    /// Which fields are filled, by mode: `Info` fills both statistics and
    /// leaves the outputs out; `Stats` fills both statistics and nothing else;
    /// `Utxo` leaves out both statistics and both transaction lists.
    pub open spec fn has_shape(&self, mode: AggregateMode) -> bool {
        match mode {
            AggregateMode::Info => self.chain_stats is Some && self.mempool_stats is Some
                && self.utxo@.len() == 0,
            AggregateMode::Stats => self.chain_stats is Some && self.mempool_stats is Some
                && self.utxo@.len() == 0 && self.chain_txs@.len() == 0 && self.mempool_txs@.len()
                == 0,
            AggregateMode::Utxo => self.chain_stats is None && self.mempool_stats is None
                && self.chain_txs@.len() == 0 && self.mempool_txs@.len() == 0,
        }
    }
}

/// Which record an address is turned into.
#[derive(Clone, Copy, Debug, PartialEq, Eq, Structural)]
pub enum AggregateMode {
    /// Statistics with confirmed and unconfirmed transactions.
    Info,
    /// Statistics only; no transaction is fetched.
    Stats,
    /// Unspent outputs only.
    Utxo,
}

/// Lookups into the chain and mempool indexes, keyed by script hash.
pub trait Query {
    /// Confirmed and unconfirmed statistics.
    fn stats(&self, scripthash: &Vec<u8>) -> (ScriptStats, ScriptStats);

    /// Up to `limit` confirmed transactions, newest first, each with its block.
    fn chain_txs(&self, scripthash: &Vec<u8>, limit: usize) -> Vec<TransactionValue>;

    /// Up to `limit` unconfirmed transactions.
    fn mempool_txs(&self, scripthash: &Vec<u8>, limit: usize) -> Vec<TransactionValue>;

    /// The unspent outputs.
    fn utxo(&self, scripthash: &Vec<u8>) -> Vec<UtxoValue>;
}

/// Full record: fetches confirmed history (one page) and unconfirmed history
/// (capped) for the script hash.
pub fn get_address_info<Q: Query>(
    addr: String,
    hash: &Vec<u8>,
    stats: (ScriptStats, ScriptStats),
    query: &Q,
    config: &Config,
) -> (r: AddressInfo)
    ensures
        r.address@ == addr@,
        r.has_shape(AggregateMode::Info),
        r.chain_stats == Some(stats.0),
        r.mempool_stats == Some(stats.1),
{
    let chain_txs = query.chain_txs(hash, CHAIN_TXS_PER_PAGE);
    let mempool_txs = query.mempool_txs(hash, MAX_MEMPOOL_TXS);
    AddressInfo::new(addr, stats, chain_txs, mempool_txs)
}

/// Statistics-only record; nothing is fetched.
pub fn get_address_stats<Q: Query>(
    addr: String,
    hash: &Vec<u8>,
    stats: (ScriptStats, ScriptStats),
    query: &Q,
    config: &Config,
) -> (r: AddressInfo)
    ensures
        r.address@ == addr@,
        r.has_shape(AggregateMode::Stats),
        r.chain_stats == Some(stats.0),
        r.mempool_stats == Some(stats.1),
{
    AddressInfo::new_stats(addr, stats)
}

/// Unspent-outputs record for the script hash.
pub fn get_address_utxo<Q: Query>(
    addr: String,
    hash: &Vec<u8>,
    stats: (ScriptStats, ScriptStats),
    query: &Q,
    config: &Config,
) -> (r: AddressInfo)
    ensures
        r.address@ == addr@,
        r.has_shape(AggregateMode::Utxo),
{
    let utxos = query.utxo(hash);
    AddressInfo::new_utxo(addr, utxos)
}

/// Builds the record that `mode` selects.
pub fn aggregate<Q: Query>(
    mode: AggregateMode,
    addr: String,
    hash: &Vec<u8>,
    stats: (ScriptStats, ScriptStats),
    query: &Q,
    config: &Config,
) -> (r: AddressInfo)
    ensures
        r.address@ == addr@,
        r.has_shape(mode),
        mode != AggregateMode::Utxo ==> r.chain_stats == Some(stats.0) && r.mempool_stats == Some(
            stats.1,
        ),
{
    match mode {
        AggregateMode::Info => get_address_info(addr, hash, stats, query, config),
        AggregateMode::Stats => get_address_stats(addr, hash, stats, query, config),
        AggregateMode::Utxo => get_address_utxo(addr, hash, stats, query, config),
    }
}

} // verus!
