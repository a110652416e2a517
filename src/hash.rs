//! 256-bit digests and block headers, held as plain bytes and integers.

use vstd::prelude::*;

verus! {

/// Number of bytes in a double-SHA-256 digest.
pub const HASH_LEN: usize = 32;

/// A double-SHA-256 digest, as its bytes in internal (little-endian) order.
pub struct Sha256dHash {
    pub bytes: Vec<u8>,
}

/// The all-zero digest, which marks "no previous block".
pub open spec fn null_hash() -> Seq<u8> {
    Seq::new(HASH_LEN as nat, |i: int| 0u8)
}

impl View for Sha256dHash {
    type V = Seq<u8>;

    open spec fn view(&self) -> Seq<u8> {
        self.bytes@
    }
}

impl Sha256dHash {
    /// A digest has exactly `HASH_LEN` bytes.
    pub open spec fn wf(&self) -> bool {
        self@.len() == HASH_LEN
    }

    /// The all-zero digest.
    pub fn null() -> (r: Sha256dHash)
        ensures
            r@ == null_hash(),
            r.wf(),
    {
        let mut bytes: Vec<u8> = Vec::new();
        while bytes.len() < HASH_LEN
            invariant
                bytes@.len() <= HASH_LEN,
                forall|i: int| 0 <= i < bytes@.len() ==> bytes@[i] == 0u8,
            decreases HASH_LEN - bytes@.len(),
        {
            bytes.push(0u8);
        }
        assert(bytes@ =~= null_hash());
        Sha256dHash { bytes }
    }

    /// Builds a digest from its bytes; `None` unless there are exactly `HASH_LEN` of them.
    pub fn from_bytes(bytes: Vec<u8>) -> (r: Option<Sha256dHash>)
        ensures
            r is Some <==> bytes@.len() == HASH_LEN,
            r is Some ==> r->0@ == bytes@,
    {
        if bytes.len() == HASH_LEN {
            Some(Sha256dHash { bytes })
        } else {
            None
        }
    }

    /// Byte-wise equality.
    pub fn same(&self, other: &Sha256dHash) -> (r: bool)
        ensures
            r == (self@ == other@),
    {
        if self.bytes.len() != other.bytes.len() {
            return false;
        }
        let mut i: usize = 0;
        while i < self.bytes.len()
            invariant
                self@.len() == other@.len(),
                i <= self@.len(),
                forall|j: int| 0 <= j < i ==> self@[j] == other@[j],
            decreases self@.len() - i,
        {
            if self.bytes[i] != other.bytes[i] {
                return false;
            }
            i += 1;
        }
        assert(self@ =~= other@);
        true
    }

    /// Whether this is the all-zero digest.
    pub fn is_null(&self) -> (r: bool)
        ensures
            r == (self@ == null_hash()),
    {
        let null = Sha256dHash::null();
        self.same(&null)
    }

    /// A copy of this digest.
    pub fn duplicate(&self) -> (r: Sha256dHash)
        ensures
            r@ == self@,
    {
        let mut bytes: Vec<u8> = Vec::new();
        let mut i: usize = 0;
        while i < self.bytes.len()
            invariant
                i <= self@.len(),
                bytes@ == self@.subrange(0, i as int),
            decreases self@.len() - i,
        {
            bytes.push(self.bytes[i]);
            i += 1;
            assert(bytes@ =~= self@.subrange(0, i as int));
        }
        assert(bytes@ =~= self@);
        Sha256dHash { bytes }
    }
}

/// What a block header holds, as plain values: version, previous block hash,
/// merkle root, time, compact target and nonce.
pub type HeaderFields = (i32, Seq<u8>, Seq<u8>, u32, u32, u32);

/// A block header.
pub struct BlockHeader {
    pub version: i32,
    pub prev_blockhash: Sha256dHash,
    pub merkle_root: Sha256dHash,
    pub time: u32,
    pub bits: u32,
    pub nonce: u32,
}

impl View for BlockHeader {
    type V = HeaderFields;

    open spec fn view(&self) -> HeaderFields {
        (self.version, self.prev_blockhash@, self.merkle_root@, self.time, self.bits, self.nonce)
    }
}

impl BlockHeader {
    /// Both digests of the header have their full length.
    pub open spec fn wf(&self) -> bool {
        self.prev_blockhash.wf() && self.merkle_root.wf()
    }

    /// A copy of this header.
    pub fn duplicate(&self) -> (r: BlockHeader)
        ensures
            r@ == self@,
    {
        BlockHeader {
            version: self.version,
            prev_blockhash: self.prev_blockhash.duplicate(),
            merkle_root: self.merkle_root.duplicate(),
            time: self.time,
            bits: self.bits,
            nonce: self.nonce,
        }
    }
}

impl BlockHeader {
    /// The block hash of this header.
    pub fn block_hash(&self) -> (r: Sha256dHash)
        requires
            self.wf(),
        ensures
            r@ == block_hash_of(self@),
            r.wf(),
    {
        compute_block_hash(self)
    }
}

/// The block hash of a header: the double SHA-256 of its 80-byte consensus encoding.
pub uninterp spec fn block_hash_of(h: HeaderFields) -> Seq<u8>;

/// Relies on bitcoin's `block::Header::block_hash`, which hashes the header's
/// consensus encoding into a 32-byte digest that depends on the fields alone.
#[verifier::external_body]
pub(crate) fn compute_block_hash(h: &BlockHeader) -> (r: Sha256dHash)
    requires
        h.wf(),
    ensures
        r@ == block_hash_of(h@),
        r.wf(),
{
    let header = bitcoin::block::Header {
        version: bitcoin::block::Version::from_consensus(h.version),
        prev_blockhash: <bitcoin::BlockHash as bitcoin::hashes::Hash>::from_slice(&h.prev_blockhash.bytes).unwrap(),
        merkle_root: <bitcoin::TxMerkleNode as bitcoin::hashes::Hash>::from_slice(&h.merkle_root.bytes).unwrap(),
        time: h.time,
        bits: bitcoin::CompactTarget::from_consensus(h.bits),
        nonce: h.nonce,
    };
    Sha256dHash { bytes: bitcoin::hashes::Hash::to_byte_array(header.block_hash()).to_vec() }
}

} // verus!
