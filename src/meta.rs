//! Block metadata read from the node, and block records handed to clients.

use vstd::prelude::*;

use crate::address::TransactionValue;
use crate::chain::HeaderEntry;
use crate::hash::Sha256dHash;

verus! {

/// A JSON value.
#[verifier::external_type_specification]
#[verifier::external_body]
pub struct ExValue(serde_json::Value);

/// A block.
#[verifier::external_type_specification]
#[verifier::external_body]
pub struct ExBlock(bitcoin::Block);

/// Relies on `serde_json::Value::as_u64`: the number, where the value is a
/// non-negative integer that fits.
pub assume_specification[ serde_json::Value::as_u64 ](v: &serde_json::Value) -> Option<u64>;

/// Relies on `serde_json::Value::as_i64`: the number, where the value is an
/// integer that fits in `i64`.
pub assume_specification[ serde_json::Value::as_i64 ](v: &serde_json::Value) -> Option<i64>;

/// Relies on `serde_json::Value::get` with a string key: the member of an
/// object, if it has one by that name.
#[verifier::external_body]
fn json_get<'a>(val: &'a serde_json::Value, key: &str) -> (r: Option<&'a serde_json::Value>) {
    val.get(key)
}

/// Size, weight and transaction count of a block.
#[derive(Clone, Copy, Debug, PartialEq, Eq, Structural)]
pub struct BlockMeta {
    pub tx_count: u32,
    pub size: u32,
    pub weight: u32,
}

/// A field of a block's metadata.
#[derive(Clone, Copy, Debug, PartialEq, Eq, Structural)]
pub enum MetaField {
    TxCount,
    Size,
    Weight,
}

/// Why block metadata could not be read.
#[derive(Clone, Copy, Debug, PartialEq, Eq, Structural)]
pub enum MetaError {
    /// The field is absent.
    Missing(MetaField),
    /// The field is not a non-negative integer.
    NotANumber(MetaField),
}

/// A number narrowed to `u32`, saturating at its maximum.
pub open spec fn narrow(v: u64) -> u32 {
    if v > u32::MAX as u64 {
        u32::MAX
    } else {
        v as u32
    }
}

/// Checks one read field: absent, not a number, or the number narrowed.
pub open spec fn field_value(f: Option<Option<u64>>, which: MetaField) -> Result<u32, MetaError> {
    match f {
        None => Err(MetaError::Missing(which)),
        Some(None) => Err(MetaError::NotANumber(which)),
        Some(Some(v)) => Ok(narrow(v)),
    }
}

/// Metadata from the three read fields, checked in the order count, size, weight.
pub open spec fn meta_of_fields(
    tx_count: Option<Option<u64>>,
    size: Option<Option<u64>>,
    weight: Option<Option<u64>>,
) -> Result<BlockMeta, MetaError> {
    match (
        field_value(tx_count, MetaField::TxCount),
        field_value(size, MetaField::Size),
        field_value(weight, MetaField::Weight),
    ) {
        (Err(e), _, _) => Err(e),
        (Ok(_), Err(e), _) => Err(e),
        (Ok(_), Ok(_), Err(e)) => Err(e),
        (Ok(t), Ok(s), Ok(w)) => Ok(BlockMeta { tx_count: t, size: s, weight: w }),
    }
}

fn narrow_u32(v: u64) -> (r: u32)
    ensures
        r == narrow(v),
{
    if v > u32::MAX as u64 {
        u32::MAX
    } else {
        v as u32
    }
}

fn check_field(f: Option<Option<u64>>, which: MetaField) -> (r: Result<u32, MetaError>)
    ensures
        r == field_value(f, which),
{
    match f {
        None => Err(MetaError::Missing(which)),
        Some(None) => Err(MetaError::NotANumber(which)),
        Some(Some(v)) => Ok(narrow_u32(v)),
    }
}

/// Reads a member of a JSON object as a count: `None` where it is absent,
/// `Some(None)` where it is no integer. A negative integer counts as 0; a
/// fractional number is refused.
fn read_number(val: &serde_json::Value, key: &str) -> (r: Option<Option<u64>>) {
    match json_get(val, key) {
        None => None,
        Some(v) => match v.as_u64() {
            Some(n) => Some(Some(n)),
            None => match v.as_i64() {
                Some(_) => Some(Some(0)),
                None => Some(None),
            },
        },
    }
}

impl BlockMeta {
    /// Metadata from the three fields as read: each must be present and a
    /// number; numbers above `u32::MAX` saturate.
    pub fn from_fields(
        tx_count: Option<Option<u64>>,
        size: Option<Option<u64>>,
        weight: Option<Option<u64>>,
    ) -> (r: Result<BlockMeta, MetaError>)
        ensures
            r == meta_of_fields(tx_count, size, weight),
    {
        let t = check_field(tx_count, MetaField::TxCount)?;
        let s = check_field(size, MetaField::Size)?;
        let w = check_field(weight, MetaField::Weight)?;
        Ok(BlockMeta { tx_count: t, size: s, weight: w })
    }

    /// Metadata from a node's `getblock` reply: its `nTx`, `size` and
    /// `weight` members, read and then checked by `from_fields`.
    pub fn parse_getblock(val: serde_json::Value) -> (r: Result<BlockMeta, MetaError>) {
        let t = read_number(&val, "nTx");
        let s = read_number(&val, "size");
        let w = read_number(&val, "weight");
        BlockMeta::from_fields(t, s, w)
    }
}

/// A header entry with the metadata of its block.
pub struct BlockHeaderMeta {
    pub header_entry: HeaderEntry,
    pub meta: BlockMeta,
}

/// A block as handed to clients.
pub struct BlockValue {
    pub id: Sha256dHash,
    pub height: usize,
    pub version: i32,
    pub timestamp: u32,
    pub tx_count: u32,
    pub size: u32,
    pub weight: u32,
    pub merkle_root: Sha256dHash,
    pub previousblockhash: Option<Sha256dHash>,
    pub nonce: u32,
    pub bits: u32,
}

/// A block with its transactions.
pub struct BlockInfo {
    pub block: BlockValue,
    pub transactions: Vec<TransactionValue>,
}

impl BlockInfo {
    pub fn new(block: BlockValue, transactions: Vec<TransactionValue>) -> (r: BlockInfo)
        ensures
            r.block == block,
            r.transactions@ == transactions@,
    {
        BlockInfo { block, transactions }
    }
}

/// A block's hash, as text, with its transaction ids.
pub struct BlockHashInfo {
    pub block: String,
    pub transactions: Vec<Sha256dHash>,
}

impl BlockHashInfo {
    pub fn new(block: String, transactions: Vec<Sha256dHash>) -> (r: BlockHashInfo)
        ensures
            r.block@ == block@,
            r.transactions@ == transactions@,
    {
        BlockHashInfo { block, transactions }
    }
}

/// Relies on the length of bitcoin's `Block::txdata`: the number of
/// transactions in the block.
#[verifier::external_body]
fn block_tx_count(block: &bitcoin::Block) -> (r: usize) {
    block.txdata.len()
}

/// Relies on bitcoin's `Transaction::weight`: the weight units of the
/// block's transaction at `index`, if it has one there.
#[verifier::external_body]
fn block_tx_weight(block: &bitcoin::Block, index: usize) -> (r: Option<u64>) {
    match block.txdata.get(index) {
        Some(tx) => Some(tx.weight().to_wu()),
        None => None,
    }
}

/// Relies on bitcoin's `Block::total_size`: the length of the block's
/// consensus encoding.
#[verifier::external_body]
fn block_total_size(block: &bitcoin::Block) -> (r: usize) {
    block.total_size()
}

/// Sum of the weights.
pub open spec fn weight_total(ws: Seq<u64>) -> int
    decreases ws.len(),
{
    if ws.len() == 0 {
        0
    } else {
        weight_total(ws.drop_last()) + ws.last()
    }
}

/// An integer narrowed to `u32`, saturating at its maximum.
pub open spec fn narrow_int(v: int) -> u32 {
    if v > u32::MAX as int {
        u32::MAX
    } else {
        v as u32
    }
}

impl BlockMeta {
    /// Metadata from a transaction count, an encoded size and the weight of
    /// each transaction; each figure saturates at `u32::MAX`.
    pub fn from_counts(tx_count: usize, size: usize, weights: &Vec<u64>) -> (r: BlockMeta)
        ensures
            r.tx_count == narrow_int(tx_count as int),
            r.size == narrow_int(size as int),
            r.weight == narrow_int(weight_total(weights@)),
    {
        let max: u64 = u32::MAX as u64;
        let mut acc: u64 = 0;
        let mut i: usize = 0;
        while i < weights.len()
            invariant
                i <= weights@.len(),
                max == u32::MAX as u64,
                acc <= max,
                acc as int == if weight_total(weights@.subrange(0, i as int)) > max as int {
                    max as int
                } else {
                    weight_total(weights@.subrange(0, i as int))
                },
                weight_total(weights@.subrange(0, i as int)) >= 0,
            decreases weights@.len() - i,
        {
            assert(weights@.subrange(0, i + 1).drop_last() =~= weights@.subrange(0, i as int));
            let w = weights[i];
            if w >= max - acc {
                acc = max;
            } else {
                acc = acc + w;
            }
            i += 1;
        }
        assert(weights@.subrange(0, weights@.len() as int) =~= weights@);
        let t: u32 = if tx_count as u64 > max { u32::MAX } else { tx_count as u32 };
        let s: u32 = if size as u64 > max { u32::MAX } else { size as u32 };
        BlockMeta { tx_count: t, size: s, weight: acc as u32 }
    }

    /// Metadata of a block: its transaction count, encoded size and total
    /// weight, read from the block and then combined by `from_counts`.
    pub fn from_block(block: &bitcoin::Block) -> (r: BlockMeta) {
        let n = block_tx_count(block);
        let mut weights: Vec<u64> = Vec::new();
        let mut i: usize = 0;
        while i < n
            invariant
                i <= n,
            decreases n - i,
        {
            match block_tx_weight(block, i) {
                Some(w) => weights.push(w),
                None => {},
            }
            i += 1;
        }
        let size = block_total_size(block);
        BlockMeta::from_counts(n, size, &weights)
    }
}

} // verus!
