use esplora_index::chain::{HeaderEntry, HeaderError, HeaderList};
use esplora_index::hash::{BlockHeader, Sha256dHash};

fn digest(fill: u8) -> Sha256dHash {
    Sha256dHash { bytes: vec![fill; 32] }
}

fn header(prev: &Sha256dHash, merkle: u8, time: u32) -> BlockHeader {
    BlockHeader {
        version: 1,
        prev_blockhash: Sha256dHash { bytes: prev.bytes.clone() },
        merkle_root: digest(merkle),
        time,
        bits: 0x1d00ffff,
        nonce: 7,
    }
}

fn hash_of(h: &BlockHeader) -> Sha256dHash {
    h.block_hash()
}

/// Headers of a chain of `n` blocks starting at genesis; `seed` varies the merkle roots.
fn chain_headers(prev: &Sha256dHash, n: usize, seed: u8) -> Vec<BlockHeader> {
    let mut out = vec![];
    let mut prev = prev.duplicate();
    for i in 0..n {
        let h = header(&prev, seed.wrapping_add(i as u8), 1_600_000_000 + i as u32);
        prev = hash_of(&h);
        out.push(h);
    }
    out
}

fn build(n: usize) -> HeaderList {
    let mut list = HeaderList::empty();
    let entries = list.order(chain_headers(&Sha256dHash::null(), n, 1)).unwrap();
    list.apply(entries).unwrap();
    list
}

fn tip_bytes(list: &HeaderList) -> Vec<u8> {
    list.tip().bytes.clone()
}

#[test]
fn genesis_block_hash_matches_bitcoin() {
    let mut merkle = vec![];
    let text = "3ba3edfd7a7b12b27ac72c3e67768f617fc81bc3888a51323a9fb8aa4b1e5e4a";
    for i in 0..32 {
        merkle.push(u8::from_str_radix(&text[2 * i..2 * i + 2], 16).unwrap());
    }
    let genesis = BlockHeader {
        version: 1,
        prev_blockhash: Sha256dHash::null(),
        merkle_root: Sha256dHash { bytes: merkle },
        time: 1231006505,
        bits: 0x1d00ffff,
        nonce: 2083236893,
    };
    let mut hash = hash_of(&genesis).bytes;
    hash.reverse();
    let shown: String = hash.iter().map(|b| format!("{:02x}", b)).collect();
    assert_eq!(shown, "000000000019d6689c085ae165831e934ff763ae46a2a6c172b3f1b60a8ce26f");
}

#[test]
fn new_walks_back_from_tip() {
    let headers = chain_headers(&Sha256dHash::null(), 6, 10);
    let tip = hash_of(&headers[5]);
    // pairs in scrambled order, plus an orphan that is not on the chain
    let mut pairs: Vec<(Sha256dHash, BlockHeader)> = vec![];
    for i in [3usize, 0, 5, 1, 4, 2] {
        pairs.push((hash_of(&headers[i]), headers[i].duplicate()));
    }
    let orphan = header(&digest(9), 99, 5);
    pairs.push((hash_of(&orphan), orphan));
    let list = HeaderList::new(pairs, tip.duplicate()).unwrap();
    assert_eq!(list.len(), 6);
    assert_eq!(tip_bytes(&list), tip.bytes);
    for (i, entry) in list.iter().iter().enumerate() {
        assert_eq!(entry.height(), i);
        let by_height = list.header_by_height(i).unwrap();
        let by_hash = list.header_by_blockhash(entry.hash()).unwrap();
        assert!(by_height.same(by_hash));
        assert_eq!(by_hash.height(), i);
    }
    assert!(list.header_by_height(6).is_none());
    assert!(list.header_by_blockhash(&digest(3)).is_none());
}

#[test]
fn new_with_null_tip_is_empty() {
    let list = HeaderList::new(vec![], Sha256dHash::null()).unwrap();
    assert_eq!(list.len(), 0);
    assert_eq!(tip_bytes(&list), vec![0u8; 32]);
}

#[test]
fn new_fails_on_missing_ancestor() {
    let headers = chain_headers(&Sha256dHash::null(), 3, 20);
    let tip = hash_of(&headers[2]);
    let pairs = vec![
        (hash_of(&headers[2]), headers[2].duplicate()),
        (hash_of(&headers[0]), headers[0].duplicate()),
    ];
    assert!(matches!(HeaderList::new(pairs, tip), Err(HeaderError::MissingHeader)));
    assert!(matches!(HeaderList::new(vec![], digest(4)), Err(HeaderError::MissingHeader)));
}

#[test]
fn reapplying_tip_changes_nothing() {
    let mut list = build(4);
    let before_tip = tip_bytes(&list);
    let last = list.header_by_height(3).unwrap();
    let again = HeaderEntry { height: last.height, hash: last.hash.duplicate(), header: last.header.duplicate() };
    list.apply(vec![again]).unwrap();
    assert_eq!(list.len(), 4);
    assert_eq!(tip_bytes(&list), before_tip);
    let other = build(4);
    assert!(list.equals(&other));
}

#[test]
fn reorg_replaces_entries_from_fork_height() {
    let mut list = build(6);
    let fork_parent = list.header_by_height(1).unwrap().hash.duplicate();
    let branch = chain_headers(&fork_parent, 3, 200);
    let entries = list.order(branch).unwrap();
    assert_eq!(entries[0].height, 2);
    let new_tip = entries[2].hash.duplicate();
    list.apply(entries).unwrap();
    assert_eq!(list.len(), 2 + 3);
    assert_eq!(tip_bytes(&list), new_tip.bytes);
    assert_eq!(list.header_by_height(4).unwrap().hash.bytes, new_tip.bytes);
    assert!(list.header_by_height(5).is_none());
    assert!(!list.equals(&build(6)));
}

#[test]
fn order_rejects_unknown_parent_and_broken_links() {
    let list = build(2);
    let stray = chain_headers(&digest(5), 2, 40);
    assert!(matches!(list.order(stray), Err(HeaderError::UnknownParent)));
    let mut broken = chain_headers(&Sha256dHash::null(), 3, 60);
    broken[2].prev_blockhash = digest(8);
    assert!(matches!(list.order(broken), Err(HeaderError::BrokenLinkage { index: 2 })));
    assert_eq!(list.order(vec![]).unwrap().len(), 0);
}

#[test]
fn apply_rejects_bad_runs_and_keeps_chain() {
    let mut list = build(3);
    let tip = tip_bytes(&list);
    // a run that starts above the tip
    let mut far = HeaderList::empty().order(chain_headers(&Sha256dHash::null(), 1, 70)).unwrap();
    far[0].height = 7;
    assert!(matches!(list.apply(far), Err(HeaderError::UnknownParent)));
    // a run whose parent is not the entry below it
    let mut wrong = HeaderList::empty().order(chain_headers(&Sha256dHash::null(), 1, 80)).unwrap();
    wrong[0].height = 2;
    assert!(matches!(list.apply(wrong), Err(HeaderError::ParentMismatch)));
    // heights that skip
    let mut skip = build(3).order(chain_headers(list.tip(), 2, 90)).unwrap();
    skip[1].height = 9;
    assert!(matches!(list.apply(skip), Err(HeaderError::NonContiguous { index: 1 })));
    assert_eq!(list.len(), 3);
    assert_eq!(tip_bytes(&list), tip);
    assert!(list.apply(vec![]).is_ok());
    assert_eq!(list.len(), 3);
}

#[test]
fn empty_lists_are_equal() {
    assert!(HeaderList::empty().equals(&HeaderList::empty()));
    assert!(!HeaderList::empty().equals(&build(1)));
}

#[test]
fn new_rejects_headers_that_do_not_link() {
    let headers = chain_headers(&Sha256dHash::null(), 3, 30);
    let tip = hash_of(&headers[2]);
    // the middle header is filed under the right key, but its contents differ
    let mut forged = headers[1].duplicate();
    forged.nonce = 12345;
    let pairs = vec![
        (hash_of(&headers[2]), headers[2].duplicate()),
        (hash_of(&headers[1]), forged),
        (hash_of(&headers[0]), headers[0].duplicate()),
    ];
    assert!(matches!(HeaderList::new(pairs, tip), Err(HeaderError::BrokenLinkage { index: 2 })));
}
