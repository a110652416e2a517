//! The canonical header chain: entries ordered by height, lookups by height
//! and by hash, and reorganisation by truncate-and-append.

use vstd::prelude::*;

use crate::hash::{block_hash_of, compute_block_hash, null_hash, BlockHeader, HeaderFields, Sha256dHash};

verus! {

/// Why a header set or a run of entries was rejected.
#[derive(Debug, PartialEq, Eq, Structural)]
pub enum HeaderError {
    /// The header at this position does not name the one before it as its parent.
    BrokenLinkage { index: usize },
    /// The entry at this position does not stand one height above the one before it.
    NonContiguous { index: usize },
    /// The parent of the first header is not part of the chain.
    UnknownParent,
    /// The parent of the first entry is not the block stored just below it.
    ParentMismatch,
    /// Walking back from the tip reached a hash that no supplied header has.
    MissingHeader,
}

/// A header at its height in the chain, with its block hash.
pub struct HeaderEntry {
    pub height: usize,
    pub hash: Sha256dHash,
    pub header: BlockHeader,
}

impl HeaderEntry {
    /// The stored hash is the header's block hash.
    pub open spec fn wf(&self) -> bool {
        &&& self.header.wf()
        &&& self.hash.wf()
        &&& self.hash@ == block_hash_of(self.header@)
    }

    pub fn hash(&self) -> (r: &Sha256dHash)
        ensures
            *r == self.hash,
    {
        &self.hash
    }

    pub fn header(&self) -> (r: &BlockHeader)
        ensures
            *r == self.header,
    {
        &self.header
    }

    pub fn height(&self) -> (r: usize)
        ensures
            r == self.height,
    {
        self.height
    }

    /// Same height, hash and header.
    pub fn same(&self, other: &HeaderEntry) -> (r: bool)
        ensures
            r == (self.height == other.height && self.hash@ == other.hash@ && self.header@
                == other.header@),
    {
        self.height == other.height && self.hash.same(&other.hash)
            && self.header.version == other.header.version
            && self.header.prev_blockhash.same(&other.header.prev_blockhash)
            && self.header.merkle_root.same(&other.header.merkle_root)
            && self.header.time == other.header.time && self.header.bits == other.header.bits
            && self.header.nonce == other.header.nonce
    }
}

/// Every entry stands at its index, the first has no parent, and each later
/// one names the entry below it as its parent.
pub open spec fn chain_linked(s: Seq<HeaderEntry>) -> bool {
    &&& forall|i: int| 0 <= i < s.len() ==> #[trigger] s[i].wf() && s[i].height == i
    &&& s.len() > 0 ==> s[0].header.prev_blockhash@ == null_hash()
    &&& forall|i: int| 0 < i < s.len() ==> #[trigger] s[i].header.prev_blockhash@ == s[i - 1].hash@
}

/// Heights go up by one and each entry names the one before it as its parent.
pub open spec fn run_linked(s: Seq<HeaderEntry>) -> bool {
    forall|i: int|
        0 < i < s.len() ==> #[trigger] s[i].height == s[i - 1].height + 1
            && s[i].header.prev_blockhash@ == s[i - 1].hash@
}

/// Hash of the last entry, or the null hash for an empty chain.
pub open spec fn tip_of(s: Seq<HeaderEntry>) -> Seq<u8> {
    if s.len() == 0 {
        null_hash()
    } else {
        s.last().hash@
    }
}

/// Index of the highest entry with hash `h`.
pub open spec fn find_hash(s: Seq<HeaderEntry>, h: Seq<u8>) -> Option<int>
    decreases s.len(),
{
    if s.len() == 0 {
        None
    } else if s.last().hash@ == h {
        Some(s.len() - 1)
    } else {
        find_hash(s.drop_last(), h)
    }
}

/// Where the chain would stand after applying `new`: the entries below the
/// first new height, then the new entries; `None` where `new` is rejected.
pub open spec fn applied(old: Seq<HeaderEntry>, new: Seq<HeaderEntry>) -> Option<Seq<HeaderEntry>> {
    if new.len() == 0 {
        Some(old)
    } else if !run_linked(new) {
        None
    } else {
        let h = new[0].height as int;
        let prev = new[0].header.prev_blockhash@;
        if (h == 0 && prev == null_hash()) || (0 < h <= old.len() && prev == old[h - 1].hash@) {
            Some(old.subrange(0, h) + new)
        } else {
            None
        }
    }
}

/// Height at which headers whose first parent is `prev` would start.
pub open spec fn start_height(s: Seq<HeaderEntry>, prev: Seq<u8>) -> Option<int> {
    if prev == null_hash() {
        Some(0)
    } else {
        match find_hash(s, prev) {
            Some(i) => Some(s[i].height + 1),
            None => None,
        }
    }
}

/// Each header names the block hash of the one before it as its parent.
pub open spec fn headers_linked(hs: Seq<BlockHeader>) -> bool {
    forall|i: int|
        0 < i < hs.len() ==> #[trigger] hs[i].prev_blockhash@ == block_hash_of(hs[i - 1]@)
}

/// In a linked run, the entry at position `j` stands `j` above the first.
proof fn lemma_run_heights(s: Seq<HeaderEntry>, j: int)
    requires
        run_linked(s),
        0 <= j < s.len(),
    ensures
        s[j].height == s[0].height + j,
    decreases j,
{
    if j > 0 {
        lemma_run_heights(s, j - 1);
        assert(s[j].height == s[j - 1].height + 1);
    }
}

/// `es` gives the headers `hs` their hashes and the heights `h`, `h + 1`, ...
pub open spec fn ordered_from(es: Seq<HeaderEntry>, hs: Seq<BlockHeader>, h: int) -> bool {
    &&& es.len() == hs.len()
    &&& forall|i: int|
        0 <= i < es.len() ==> #[trigger] es[i].height == h + i && es[i].header@ == hs[i]@
            && es[i].wf()
}

/// A found index lies in the sequence and names an entry with that hash.
proof fn lemma_find_hash_range(s: Seq<HeaderEntry>, h: Seq<u8>)
    ensures
        find_hash(s, h) is Some ==> 0 <= find_hash(s, h)->0 < s.len() && s[find_hash(s, h)->0].hash@
            == h,
    decreases s.len(),
{
    if s.len() > 0 && s.last().hash@ != h {
        lemma_find_hash_range(s.drop_last(), h);
    }
}

/// The ordered header chain and its tip.
pub struct HeaderList {
    headers: Vec<HeaderEntry>,
    tip: Sha256dHash,
}

impl HeaderList {
    /// The entries, by height.
    pub closed spec fn entries_spec(&self) -> Seq<HeaderEntry> {
        self.headers@
    }

    /// The stored tip hash.
    pub closed spec fn tip_spec(&self) -> Seq<u8> {
        self.tip@
    }

    pub open spec fn wf(&self) -> bool {
        &&& chain_linked(self.entries_spec())
        &&& self.tip_spec() == tip_of(self.entries_spec())
    }

    /// The chain with no headers, and the null tip.
    pub fn empty() -> (r: HeaderList)
        ensures
            r.wf(),
            r.entries_spec().len() == 0,
    {
        HeaderList { headers: Vec::new(), tip: Sha256dHash::null() }
    }

    /// Number of entries.
    pub fn len(&self) -> (r: usize)
        ensures
            r == self.entries_spec().len(),
    {
        self.headers.len()
    }

    /// The entries, by height.
    pub fn iter(&self) -> (r: &Vec<HeaderEntry>)
        ensures
            r@ == self.entries_spec(),
    {
        &self.headers
    }

    /// Hash of the highest entry, or the null hash when there is none.
    pub fn tip(&self) -> (r: &Sha256dHash)
        requires
            self.wf(),
        ensures
            r@ == tip_of(self.entries_spec()),
    {
        &self.tip
    }

    /// The entry at `height`, if the chain reaches it.
    pub fn header_by_height(&self, height: usize) -> (r: Option<&HeaderEntry>)
        requires
            self.wf(),
        ensures
            r is Some <==> height < self.entries_spec().len(),
            r is Some ==> *r->0 == self.entries_spec()[height as int] && r->0.height == height,
    {
        if height < self.headers.len() {
            assert(self.headers@[height as int].wf());
            Some(&self.headers[height])
        } else {
            None
        }
    }

    /// The highest entry whose hash is `blockhash`.
    pub fn header_by_blockhash(&self, blockhash: &Sha256dHash) -> (r: Option<&HeaderEntry>)
        ensures
            r is Some <==> find_hash(self.entries_spec(), blockhash@) is Some,
            r is Some ==> *r->0 == self.entries_spec()[find_hash(self.entries_spec(), blockhash@)->0],
    {
        let ghost s = self.headers@;
        let mut i: usize = self.headers.len();
        assert(s.subrange(0, s.len() as int) =~= s);
        while i > 0
            invariant
                i <= s.len(),
                s == self.headers@,
                find_hash(s, blockhash@) == find_hash(s.subrange(0, i as int), blockhash@),
            decreases i,
        {
            assert(s.subrange(0, i as int).drop_last() =~= s.subrange(0, i - 1));
            if self.headers[i - 1].hash.same(blockhash) {
                return Some(&self.headers[i - 1]);
            }
            i -= 1;
        }
        None
    }

    /// Whether both chains end in the same entry (or both are empty).
    pub fn equals(&self, other: &HeaderList) -> (r: bool)
        ensures
            r == (self.entries_spec().len() == 0 && other.entries_spec().len() == 0 || self.entries_spec().len() > 0
                && other.entries_spec().len() > 0 && {
                let a = self.entries_spec().last();
                let b = other.entries_spec().last();
                a.height == b.height && a.hash@ == b.hash@ && a.header@ == b.header@
            }),
    {
        let n = self.headers.len();
        let m = other.headers.len();
        if n == 0 || m == 0 {
            n == 0 && m == 0
        } else {
            self.headers[n - 1].same(&other.headers[m - 1])
        }
    }
}

impl HeaderList {
    /// Applies a run of new entries: keeps the entries below the first new
    /// height and appends the run, which is how reorganisations are absorbed.
    /// A run that is not contiguous, or whose first parent is not the entry
    /// just below it, is rejected and the chain is left as it was.
    pub fn apply(&mut self, new_headers: Vec<HeaderEntry>) -> (r: Result<(), HeaderError>)
        requires
            old(self).wf(),
            forall|i: int| 0 <= i < new_headers@.len() ==> #[trigger] new_headers@[i].wf(),
        ensures
            final(self).wf(),
            match applied(old(self).entries_spec(), new_headers@) {
                Some(s) => r is Ok && final(self).entries_spec() == s,
                None => r is Err && *final(self) == *old(self),
            },
    {
        let n = new_headers.len();
        if n == 0 {
            return Ok(());
        }
        let mut i: usize = 1;
        while i < n
            invariant
                1 <= i <= n,
                n == new_headers@.len(),
                *self == *old(self),
                self.wf(),
                forall|k: int|
                    0 < k < i ==> #[trigger] new_headers@[k].height == new_headers@[k - 1].height + 1
                        && new_headers@[k].header.prev_blockhash@ == new_headers@[k - 1].hash@,
            decreases n - i,
        {
            if new_headers[i - 1].height == usize::MAX || new_headers[i - 1].height + 1
                != new_headers[i].height {
                assert(new_headers@[i as int].height != new_headers@[i - 1].height + 1);
                assert(!run_linked(new_headers@));
                return Err(HeaderError::NonContiguous { index: i });
            }
            if !new_headers[i - 1].hash.same(&new_headers[i].header.prev_blockhash) {
                assert(new_headers@[i as int].header.prev_blockhash@ != new_headers@[i - 1].hash@);
                assert(new_headers@[i as int].height == new_headers@[i - 1].height + 1 ==> !run_linked(new_headers@));
                assert(!run_linked(new_headers@));
                return Err(HeaderError::BrokenLinkage { index: i });
            }
            i += 1;
        }
        let h = new_headers[0].height;
        if h == 0 {
            if !new_headers[0].header.prev_blockhash.is_null() {
                return Err(HeaderError::ParentMismatch);
            }
        } else {
            if h - 1 >= self.headers.len() {
                return Err(HeaderError::UnknownParent);
            }
            if !self.headers[h - 1].hash.same(&new_headers[0].header.prev_blockhash) {
                return Err(HeaderError::ParentMismatch);
            }
        }
        let ghost old_s = self.headers@;
        let ghost new_s = new_headers@;
        let mut new_headers = new_headers;
        let tip = new_headers[n - 1].hash.duplicate();
        self.headers.truncate(h);
        self.headers.append(&mut new_headers);
        self.tip = tip;
        proof {
            let s = self.headers@;
            assert(s =~= old_s.subrange(0, h as int) + new_s);
            assert forall|k: int| 0 <= k < s.len() implies #[trigger] s[k].wf() && s[k].height == k by {
                if k < h {
                    assert(s[k] == old_s[k]);
                    assert(old_s[k].wf());
                } else {
                    assert(s[k] == new_s[k - h]);
                    assert(new_s[k - h].wf());
                    lemma_run_heights(new_s, k - h);
                }
            }
            assert forall|k: int| 0 < k < s.len() implies #[trigger] s[k].header.prev_blockhash@
                == s[k - 1].hash@ by {
                if k < h {
                    assert(old_s[k].header.prev_blockhash@ == old_s[k - 1].hash@);
                } else if k == h {
                } else {
                    assert(new_s[k - h].height == new_s[k - h - 1].height + 1);
                    assert(new_s[k - h].header.prev_blockhash@ == new_s[k - h - 1].hash@);
                }
            }
        }
        Ok(())
    }
}

impl HeaderList {
    /// Gives a run of headers, each naming the one before it as its parent,
    /// their hashes and heights: the first stands at 0 when it has no parent,
    /// else one above its parent in this chain.
    pub fn order(&self, new_headers: Vec<BlockHeader>) -> (r: Result<Vec<HeaderEntry>, HeaderError>)
        requires
            self.wf(),
            forall|i: int| 0 <= i < new_headers@.len() ==> #[trigger] new_headers@[i].wf(),
            self.entries_spec().len() + new_headers@.len() <= usize::MAX,
        ensures
            !headers_linked(new_headers@) ==> r is Err,
            r is Ok ==> forall|i: int| 0 <= i < r->Ok_0@.len() ==> #[trigger] r->Ok_0@[i].wf(),
            headers_linked(new_headers@) && new_headers@.len() == 0 ==> r is Ok && r->Ok_0@.len() == 0,
            headers_linked(new_headers@) && new_headers@.len() > 0 ==> match start_height(
                self.entries_spec(),
                new_headers@[0].prev_blockhash@,
            ) {
                Some(h) => r is Ok && ordered_from(r->Ok_0@, new_headers@, h),
                None => r is Err,
            },
    {
        let n = new_headers.len();
        let mut hashes: Vec<Sha256dHash> = Vec::new();
        let mut i: usize = 0;
        while i < n
            invariant
                i <= n,
                n == new_headers@.len(),
                hashes@.len() == i,
                forall|k: int| 0 <= k < new_headers@.len() ==> #[trigger] new_headers@[k].wf(),
                forall|k: int|
                    0 <= k < i ==> #[trigger] hashes@[k]@ == block_hash_of(new_headers@[k]@)
                        && hashes@[k].wf(),
                forall|k: int|
                    0 < k < i ==> #[trigger] new_headers@[k].prev_blockhash@ == block_hash_of(
                        new_headers@[k - 1]@,
                    ),
            decreases n - i,
        {
            if i > 0 && !new_headers[i].prev_blockhash.same(&hashes[i - 1]) {
                assert(!headers_linked(new_headers@));
                return Err(HeaderError::BrokenLinkage { index: i });
            }
            let h = compute_block_hash(&new_headers[i]);
            hashes.push(h);
            i += 1;
        }
        let mut entries: Vec<HeaderEntry> = Vec::new();
        if n == 0 {
            return Ok(entries);
        }
        let start: usize = if new_headers[0].prev_blockhash.is_null() {
            0
        } else {
            proof {
                lemma_find_hash_range(self.entries_spec(), new_headers@[0].prev_blockhash@);
            }
            match self.header_by_blockhash(&new_headers[0].prev_blockhash) {
                Some(e) => {
                    assert(self.entries_spec()[find_hash(self.entries_spec(), new_headers@[0].prev_blockhash@)->0].wf());
                    e.height + 1
                },
                None => {
                    return Err(HeaderError::UnknownParent);
                },
            }
        };
        assert(start <= self.entries_spec().len());
        assert(start_height(self.entries_spec(), new_headers@[0].prev_blockhash@) == Some(start as int));
        let mut j: usize = 0;
        while j < n
            invariant
                j <= n,
                n == new_headers@.len(),
                hashes@.len() == n,
                start + n <= usize::MAX,
                forall|k: int| 0 <= k < new_headers@.len() ==> #[trigger] new_headers@[k].wf(),
                forall|k: int|
                    0 <= k < n ==> #[trigger] hashes@[k]@ == block_hash_of(new_headers@[k]@)
                        && hashes@[k].wf(),
                entries@.len() == j,
                forall|k: int|
                    0 <= k < j ==> #[trigger] entries@[k].height == start + k
                        && entries@[k].header@ == new_headers@[k]@ && entries@[k].wf(),
            decreases n - j,
        {
            let entry = HeaderEntry {
                height: start + j,
                hash: hashes[j].duplicate(),
                header: new_headers[j].duplicate(),
            };
            assert(hashes@[j as int]@ == block_hash_of(new_headers@[j as int]@));
            assert(new_headers@[j as int].wf());
            assert(entry.wf());
            entries.push(entry);
            j += 1;
        }
        assert(ordered_from(entries@, new_headers@, start as int));
        assert forall|k: int| 0 <= k < entries@.len() implies #[trigger] entries@[k].wf() by {
            assert(entries@[k].height == start + k);
        }
        Ok(entries)
    }
}

/// Index of the first pair, at or after `i`, whose key is `h`.
pub open spec fn first_key_from(pairs: Seq<(Sha256dHash, BlockHeader)>, h: Seq<u8>, i: int) -> Option<int>
    decreases pairs.len() - i,
{
    if i < 0 || i >= pairs.len() {
        None
    } else if pairs[i].0@ == h {
        Some(i)
    } else {
        first_key_from(pairs, h, i + 1)
    }
}

/// The headers met walking back from `h` along parent hashes, looking each
/// hash up among the pairs' keys, oldest first; `None` where a hash is not a
/// key, or the null hash is not reached within `fuel` steps.
pub open spec fn chain_back(pairs: Seq<(Sha256dHash, BlockHeader)>, h: Seq<u8>, fuel: nat) -> Option<
    Seq<HeaderFields>,
>
    decreases fuel,
{
    if h == null_hash() {
        Some(Seq::empty())
    } else if fuel == 0 {
        None
    } else {
        match first_key_from(pairs, h, 0) {
            None => None,
            Some(i) => match chain_back(pairs, pairs[i].1.prev_blockhash@, (fuel - 1) as nat) {
                Some(c) => Some(c.push(pairs[i].1@)),
                None => None,
            },
        }
    }
}

/// Each header names the block hash of the one before it as its parent.
pub open spec fn fields_linked(fs: Seq<HeaderFields>) -> bool {
    forall|i: int| 0 < i < fs.len() ==> #[trigger] fs[i].1 == block_hash_of(fs[i - 1])
}

/// The headers of a run of entries.
pub open spec fn entry_fields(s: Seq<HeaderEntry>) -> Seq<HeaderFields> {
    s.map_values(|e: HeaderEntry| e.header@)
}

/// The fields of a run of headers.
pub open spec fn header_fields(s: Seq<BlockHeader>) -> Seq<HeaderFields> {
    s.map_values(|h: BlockHeader| h@)
}

proof fn lemma_chain_back_starts_at_null(pairs: Seq<(Sha256dHash, BlockHeader)>, h: Seq<u8>, fuel: nat)
    requires
        chain_back(pairs, h, fuel) is Some,
    ensures
        chain_back(pairs, h, fuel)->0.len() == 0 ==> h == null_hash(),
        chain_back(pairs, h, fuel)->0.len() > 0 ==> chain_back(pairs, h, fuel)->0[0].1 == null_hash(),
    decreases fuel,
{
    if h != null_hash() {
        let i = first_key_from(pairs, h, 0)->0;
        let prev = pairs[i].1.prev_blockhash@;
        lemma_chain_back_starts_at_null(pairs, prev, (fuel - 1) as nat);
        let c = chain_back(pairs, prev, (fuel - 1) as nat)->0;
        if c.len() > 0 {
            assert(c.push(pairs[i].1@)[0] == c[0]);
        }
    }
}

proof fn lemma_first_key_range(pairs: Seq<(Sha256dHash, BlockHeader)>, h: Seq<u8>, i: int)
    ensures
        first_key_from(pairs, h, i) is Some ==> i <= first_key_from(pairs, h, i)->0 < pairs.len()
            && pairs[first_key_from(pairs, h, i)->0].0@ == h,
    decreases pairs.len() - i,
{
    if 0 <= i < pairs.len() && pairs[i].0@ != h {
        lemma_first_key_range(pairs, h, i + 1);
    }
}

/// Position of the first pair whose key is `h`.
fn position_of_key(pairs: &Vec<(Sha256dHash, BlockHeader)>, h: &Sha256dHash) -> (r: Option<usize>)
    ensures
        r is Some <==> first_key_from(pairs@, h@, 0) is Some,
        r is Some ==> r->0 as int == first_key_from(pairs@, h@, 0)->0,
{
    let mut i: usize = 0;
    while i < pairs.len()
        invariant
            i <= pairs@.len(),
            first_key_from(pairs@, h@, 0) == first_key_from(pairs@, h@, i as int),
        decreases pairs@.len() - i,
    {
        if pairs[i].0.same(h) {
            return Some(i);
        }
        i += 1;
    }
    None
}

impl HeaderList {
    /// Builds the chain that ends at `tip_hash` from (hash, header) pairs:
    /// walks back from the tip along each header's parent until the null
    /// hash, then orders and applies the headers found. A hash on the way
    /// that no pair has (or a walk longer than the pairs) is an error, as is
    /// a header whose block hash is not the parent named by the next one.
    pub fn new(headers_map: Vec<(Sha256dHash, BlockHeader)>, tip_hash: Sha256dHash) -> (r: Result<
        HeaderList,
        HeaderError,
    >)
        requires
            forall|i: int| 0 <= i < headers_map@.len() ==> #[trigger] headers_map@[i].1.wf(),
        ensures
            r is Ok ==> r->Ok_0.wf(),
            match chain_back(headers_map@, tip_hash@, headers_map@.len() as nat) {
                None => r == Err::<HeaderList, HeaderError>(HeaderError::MissingHeader),
                Some(c) => (r is Ok <==> fields_linked(c)) && (r is Ok ==> entry_fields(
                    r->Ok_0.entries_spec(),
                ) == c),
            },
    {
        let ghost pairs = headers_map@;
        let ghost first_tip = tip_hash@;
        let n = headers_map.len();
        let mut blockhash = tip_hash;
        let mut chain: Vec<BlockHeader> = Vec::new();
        let mut steps: usize = 0;
        while !blockhash.is_null()
            invariant
                steps <= n,
                n == pairs.len(),
                chain@.len() == steps,
                first_tip == tip_hash@,
                pairs == headers_map@,
                forall|i: int| 0 <= i < pairs.len() ==> #[trigger] pairs[i].1.wf(),
                forall|i: int| 0 <= i < chain@.len() ==> #[trigger] chain@[i].wf(),
                chain_back(pairs, first_tip, n as nat) == match chain_back(pairs, blockhash@, (n - steps) as nat) {
                    Some(c) => Some(c + header_fields(chain@)),
                    None => None,
                },
            decreases n - steps,
        {
            if steps == n {
                assert(chain_back(pairs, blockhash@, 0) is None);
                return Err(HeaderError::MissingHeader);
            }
            match position_of_key(&headers_map, &blockhash) {
                None => {
                    assert(chain_back(pairs, blockhash@, (n - steps) as nat) is None);
                    return Err(HeaderError::MissingHeader);
                },
                Some(p) => {
                    proof {
                        lemma_first_key_range(pairs, blockhash@, 0);
                    }
                    assert(pairs[p as int].1.wf());
                    let header = headers_map[p].1.duplicate();
                    let ghost old_chain = chain@;
                    let ghost fuel = (n - steps) as nat;
                    blockhash = header.prev_blockhash.duplicate();
                    chain.insert(0, header);
                    steps += 1;
                    proof {
                        assert(header_fields(chain@) =~= seq![pairs[p as int].1@] + header_fields(old_chain));
                        match chain_back(pairs, blockhash@, (fuel - 1) as nat) {
                            Some(c) => {
                                assert(c.push(pairs[p as int].1@) + header_fields(old_chain) =~= c + header_fields(chain@));
                            },
                            None => {},
                        }
                    }
                },
            }
        }
        proof {
            assert(Seq::<HeaderFields>::empty() + header_fields(chain@) =~= header_fields(chain@));
            let c = header_fields(chain@);
            lemma_chain_back_starts_at_null(pairs, first_tip, n as nat);
            assert forall|i: int| 0 <= i < chain@.len() implies #[trigger] c[i] == chain@[i]@ by {}
            assert(headers_linked(chain@) <==> fields_linked(c)) by {
                if headers_linked(chain@) {
                    assert forall|i: int| 0 < i < c.len() implies #[trigger] c[i].1 == block_hash_of(c[i - 1]) by {
                        assert(chain@[i].prev_blockhash@ == block_hash_of(chain@[i - 1]@));
                    }
                }
                if fields_linked(c) {
                    assert forall|i: int| 0 < i < chain@.len() implies #[trigger] chain@[i].prev_blockhash@
                        == block_hash_of(chain@[i - 1]@) by {
                        assert(c[i].1 == block_hash_of(c[i - 1]));
                    }
                }
            }
            if chain@.len() > 0 {
                assert(chain@[0].prev_blockhash@ == c[0].1);
            }
        }
        let mut headers = HeaderList::empty();
        let entries = headers.order(chain)?;
        proof {
            let c = header_fields(chain@);
            let es = entries@;
            if chain@.len() > 0 {
                assert(start_height(headers.entries_spec(), chain@[0].prev_blockhash@) == Some(0int));
                assert(ordered_from(es, chain@, 0));
            }
            if es.len() > 0 {
                assert(es[0].height == 0);
                assert(es[0].header@ == chain@[0]@);
                assert forall|i: int| 0 < i < es.len() implies #[trigger] es[i].height == es[i - 1].height + 1
                    && es[i].header.prev_blockhash@ == es[i - 1].hash@ by {
                    assert(es[i].height == i && es[i - 1].height == i - 1);
                    assert(es[i].header@ == chain@[i]@ && es[i - 1].header@ == chain@[i - 1]@);
                    assert(es[i - 1].wf());
                    assert(chain@[i].prev_blockhash@ == block_hash_of(chain@[i - 1]@));
                }
                assert(Seq::<HeaderEntry>::empty().subrange(0, 0) + es =~= es);
            }
            assert(entry_fields(es) =~= c) by {
                assert forall|i: int| 0 <= i < es.len() implies #[trigger] entry_fields(es)[i] == c[i] by {
                    assert(es[i].height == i);
                    assert(es[i].header@ == chain@[i]@);
                }
            }
        }
        headers.apply(entries)?;
        Ok(headers)
    }
}

/// The pairs are a chain in order: each key is its header's block hash, no
/// key is null or repeated, the first header has no parent and each later
/// one names the key before it.
pub open spec fn pairs_in_chain_order(pairs: Seq<(Sha256dHash, BlockHeader)>) -> bool {
    &&& forall|i: int| 0 <= i < pairs.len() ==> #[trigger] pairs[i].0@ == block_hash_of(pairs[i].1@)
    &&& forall|i: int| 0 <= i < pairs.len() ==> #[trigger] pairs[i].0@ != null_hash()
    &&& forall|i: int, j: int|
        0 <= i < pairs.len() && 0 <= j < pairs.len() && i != j ==> #[trigger] pairs[i].0@
            != #[trigger] pairs[j].0@
    &&& pairs.len() > 0 ==> pairs[0].1.prev_blockhash@ == null_hash()
    &&& forall|i: int| 0 < i < pairs.len() ==> #[trigger] pairs[i].1.prev_blockhash@ == pairs[i - 1].0@
}

/// The headers of the first `n` pairs.
pub open spec fn pair_headers(pairs: Seq<(Sha256dHash, BlockHeader)>, n: int) -> Seq<HeaderFields> {
    Seq::new(n as nat, |i: int| pairs[i].1@)
}

proof fn lemma_first_key_is_own(pairs: Seq<(Sha256dHash, BlockHeader)>, i: int, j: int)
    requires
        pairs_in_chain_order(pairs),
        0 <= i <= j < pairs.len(),
    ensures
        first_key_from(pairs, pairs[j].0@, i) == Some(j),
    decreases j - i,
{
    if i < j {
        assert(pairs[i].0@ != pairs[j].0@);
        lemma_first_key_is_own(pairs, i + 1, j);
    }
}

proof fn lemma_chain_back_prefix(pairs: Seq<(Sha256dHash, BlockHeader)>, j: int, fuel: nat)
    requires
        pairs_in_chain_order(pairs),
        0 <= j < pairs.len(),
        fuel > j,
    ensures
        chain_back(pairs, pairs[j].0@, fuel) == Some(pair_headers(pairs, j + 1)),
    decreases j,
{
    assert(pairs[j].0@ != null_hash());
    lemma_first_key_is_own(pairs, 0, j);
    if j == 0 {
        assert(chain_back(pairs, pairs[0].1.prev_blockhash@, (fuel - 1) as nat) == Some(Seq::<HeaderFields>::empty()));
        assert(Seq::<HeaderFields>::empty().push(pairs[0].1@) =~= pair_headers(pairs, 1));
    } else {
        assert(pairs[j].1.prev_blockhash@ == pairs[j - 1].0@);
        lemma_chain_back_prefix(pairs, j - 1, (fuel - 1) as nat);
        assert(pair_headers(pairs, j).push(pairs[j].1@) =~= pair_headers(pairs, j + 1));
    }
}

/// Pairs that list a chain in order, keyed by distinct, non-null block
/// hashes, walk back from the last key to the whole chain, which is linked:
/// so `new` succeeds on them, and its entries are these headers at heights
/// equal to their positions.
pub proof fn lemma_walk_finds_whole_chain(pairs: Seq<(Sha256dHash, BlockHeader)>)
    requires
        pairs_in_chain_order(pairs),
        pairs.len() > 0,
    ensures
        chain_back(pairs, pairs.last().0@, pairs.len() as nat) == Some(pair_headers(pairs, pairs.len() as int)),
        fields_linked(pair_headers(pairs, pairs.len() as int)),
{
    lemma_chain_back_prefix(pairs, pairs.len() - 1, pairs.len() as nat);
    let c = pair_headers(pairs, pairs.len() as int);
    assert forall|i: int| 0 < i < c.len() implies #[trigger] c[i].1 == block_hash_of(c[i - 1]) by {
        assert(pairs[i].1.prev_blockhash@ == pairs[i - 1].0@);
        assert(pairs[i - 1].0@ == block_hash_of(pairs[i - 1].1@));
    }
}

/// No two entries share a block hash.
pub open spec fn hashes_distinct(s: Seq<HeaderEntry>) -> bool {
    forall|i: int, j: int| 0 <= i < s.len() && 0 <= j < s.len() && i != j ==> #[trigger] s[i].hash@ != #[trigger] s[j].hash@
}

proof fn lemma_find_own_hash(s: Seq<HeaderEntry>, i: int)
    requires
        hashes_distinct(s),
        0 <= i < s.len(),
    ensures
        find_hash(s, s[i].hash@) == Some(i),
    decreases s.len(),
{
    if i != s.len() - 1 {
        let t = s.drop_last();
        assert(s.last().hash@ != s[i].hash@);
        assert(hashes_distinct(t)) by {
            assert forall|a: int, b: int| 0 <= a < t.len() && 0 <= b < t.len() && a != b implies #[trigger] t[a].hash@ != #[trigger] t[b].hash@ by {
                assert(t[a] == s[a] && t[b] == s[b]);
            }
        }
        assert(t[i] == s[i]);
        lemma_find_own_hash(t, i);
    }
}

/// In a well-formed chain whose block hashes are distinct, every entry stands
/// at its index, and looking it up by its hash finds the entry at that index,
/// so lookups by height and by hash agree.
pub proof fn lemma_lookups_agree(l: &HeaderList)
    requires
        l.wf(),
        hashes_distinct(l.entries_spec()),
    ensures
        forall|i: int|
            #![trigger l.entries_spec()[i]]
            0 <= i < l.entries_spec().len() ==> l.entries_spec()[i].height == i && find_hash(
                l.entries_spec(),
                l.entries_spec()[i].hash@,
            ) == Some(i),
{
    assert forall|i: int|
        #![trigger l.entries_spec()[i]]
        0 <= i < l.entries_spec().len() implies l.entries_spec()[i].height == i
        && find_hash(l.entries_spec(), l.entries_spec()[i].hash@) == Some(i) by {
        assert(l.entries_spec()[i].wf());
        lemma_find_own_hash(l.entries_spec(), i);
    }
}

/// Applying the tip entry again leaves the chain as it is.
pub proof fn lemma_reapply_tip(l: &HeaderList)
    requires
        l.wf(),
        l.entries_spec().len() > 0,
    ensures
        applied(l.entries_spec(), seq![l.entries_spec().last()]) == Some(l.entries_spec()),
{
    let s = l.entries_spec();
    let h = s.len() - 1;
    assert(s[h].wf());
    if h > 0 {
        assert(s[h].header.prev_blockhash@ == s[h - 1].hash@);
    }
    assert(s.subrange(0, h) + seq![s.last()] =~= s);
}

/// A branch that forks below the tip, at height `k`, replaces every entry at
/// or above `k`: the chain keeps the `k` entries below it, then the branch,
/// and its tip becomes the branch's last hash.
pub proof fn lemma_reorg(l: &HeaderList, branch: Seq<HeaderEntry>)
    requires
        l.wf(),
        branch.len() > 0,
        run_linked(branch),
        branch[0].height < l.entries_spec().len(),
        branch[0].height == 0 ==> branch[0].header.prev_blockhash@ == null_hash(),
        branch[0].height > 0 ==> branch[0].header.prev_blockhash@ == l.entries_spec()[branch[0].height - 1].hash@,
    ensures
        applied(l.entries_spec(), branch) is Some,
        ({
            let s = applied(l.entries_spec(), branch)->0;
            let k = branch[0].height as int;
            &&& s.len() == k + branch.len()
            &&& s.subrange(0, k) == l.entries_spec().subrange(0, k)
            &&& s.subrange(k, s.len() as int) == branch
            &&& tip_of(s) == branch.last().hash@
        }),
{
    let k = branch[0].height as int;
    let s = l.entries_spec().subrange(0, k) + branch;
    assert(s.subrange(0, k) =~= l.entries_spec().subrange(0, k));
    assert(s.subrange(k, s.len() as int) =~= branch);
    assert(s.last() == branch.last());
}

/// Height, hash and time of a chain entry, as handed to clients.
pub struct BlockId {
    pub height: usize,
    pub hash: Sha256dHash,
    pub time: u32,
}

impl BlockId {
    /// The identity of a chain entry.
    pub fn from_entry(header: &HeaderEntry) -> (r: BlockId)
        ensures
            r.height == header.height,
            r.hash@ == header.hash@,
            r.time == header.header.time,
    {
        BlockId { height: header.height(), hash: header.hash().duplicate(), time: header.header().time }
    }
}

/// Whether a block is on the best chain, where, and which block follows it.
pub struct BlockStatus {
    pub in_best_chain: bool,
    pub height: Option<usize>,
    pub next_best: Option<Sha256dHash>,
}

impl BlockStatus {
    /// A block on the best chain at `height`.
    pub fn confirmed(height: usize, next_best: Option<Sha256dHash>) -> (r: BlockStatus)
        ensures
            r.in_best_chain,
            r.height == Some(height),
            r.next_best == next_best,
    {
        BlockStatus { in_best_chain: true, height: Some(height), next_best }
    }

    /// A block off the best chain.
    pub fn orphaned() -> (r: BlockStatus)
        ensures
            !r.in_best_chain,
            r.height is None,
            r.next_best is None,
    {
        BlockStatus { in_best_chain: false, height: None, next_best: None }
    }
}

} // verus!
