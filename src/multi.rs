//! Request inputs naming several addresses or an extended public key:
//! classification, literal batches, and gap-limit scanning of derived keys.

use vstd::prelude::*;

use crate::address::{aggregate, AddressInfo, AggregateMode, Config, Network, Query, ScriptStats};

verus! {

/// URL-encoded `|`, which joins several addresses in one request string.
pub const MULTIADDR_SEPARATOR: &'static str = "%7C";

/// Addresses derived per page.
pub const DERIVE_SIZE: u32 = 100;

/// Prefix of an extended public key.
pub const XPUB_PREFIX: &'static str = "xpub";

/// Consecutive unused addresses after which a scan stops.
pub const GAP_LIMIT: u32 = 20;

/// `p` begins `s`.
pub open spec fn is_prefix(p: Seq<char>, s: Seq<char>) -> bool {
    p.len() <= s.len() && s.subrange(0, p.len() as int) == p
}

/// `sep` occurs in `s` at position `i`.
pub open spec fn occurs_at(s: Seq<char>, sep: Seq<char>, i: int) -> bool {
    0 <= i && i + sep.len() <= s.len() && s.subrange(i, i + sep.len()) == sep
}

/// `sep` occurs somewhere in `s`.
pub open spec fn contains_seq(s: Seq<char>, sep: Seq<char>) -> bool {
    exists|i: int| occurs_at(s, sep, i)
}

/// The parts, with `sep` between each two.
pub open spec fn join_with(parts: Seq<Seq<char>>, sep: Seq<char>) -> Seq<char>
    decreases parts.len(),
{
    if parts.len() == 0 {
        Seq::empty()
    } else if parts.len() == 1 {
        parts[0]
    } else {
        join_with(parts.drop_last(), sep) + sep + parts.last()
    }
}

/// The views of a list of strings.
pub open spec fn views(v: Seq<String>) -> Seq<Seq<char>> {
    v.map_values(|s: String| s@)
}

/// Relies on `str::starts_with` with a string pattern.
#[verifier::external_body]
fn str_starts_with(s: &str, p: &str) -> (r: bool)
    ensures
        r == is_prefix(p@, s@),
{
    s.starts_with(p)
}

/// Relies on `str::contains` with a string pattern.
#[verifier::external_body]
fn str_contains(s: &str, p: &str) -> (r: bool)
    ensures
        r == contains_seq(s@, p@),
{
    s.contains(p)
}

/// Relies on `str::split` with a non-empty string pattern: the pieces between
/// successive leftmost matches, in order, none holding the pattern.
#[verifier::external_body]
fn str_split(s: &str, sep: &str) -> (r: Vec<String>)
    requires
        sep@.len() > 0,
    ensures
        r@.len() >= 1,
        join_with(views(r@), sep@) == s@,
        forall|k: int| 0 <= k < r@.len() ==> !contains_seq(#[trigger] r@[k]@, sep@),
{
    s.split(sep).map(|piece| piece.to_owned()).collect()
}

/// Tells an extended public key from literal addresses. A key gives no
/// literal address and `true`; a string holding the separator gives the
/// pieces between separators, in order; anything else is one address.
pub fn xpub_multi_or_single(input: &str) -> (r: (Vec<String>, bool))
    ensures
        is_prefix(XPUB_PREFIX@, input@) ==> r.1 && r.0@.len() == 0,
        !is_prefix(XPUB_PREFIX@, input@) && contains_seq(input@, MULTIADDR_SEPARATOR@) ==> !r.1
            && join_with(views(r.0@), MULTIADDR_SEPARATOR@) == input@ && forall|k: int|
            0 <= k < r.0@.len() ==> !contains_seq(#[trigger] r.0@[k]@, MULTIADDR_SEPARATOR@),
        !is_prefix(XPUB_PREFIX@, input@) && !contains_seq(input@, MULTIADDR_SEPARATOR@) ==> !r.1
            && r.0@.len() == 1 && r.0@[0]@ == input@,
{
    if str_starts_with(input, XPUB_PREFIX) {
        (Vec::new(), true)
    } else if str_contains(input, MULTIADDR_SEPARATOR) {
        proof {
            reveal_strlit("%7C");
        }
        (str_split(input, MULTIADDR_SEPARATOR), false)
    } else {
        let mut v: Vec<String> = Vec::new();
        v.push(input.to_owned());
        (v, false)
    }
}

/// Script hash of an address on a network: the SHA-256 of the address's
/// output script, or `None` where the string is no address of that network.
pub uninterp spec fn script_hash_of(addr: Seq<char>, network: Network) -> Option<Seq<u8>>;

/// Relies on bitcoin's `Address` parsing (`from_str`, then `require_network`)
/// and `script_pubkey`, and on `sha256::Hash::hash` of the script's bytes,
/// whose 32 bytes depend on the address and network alone.
#[verifier::external_body]
pub(crate) fn to_scripthash(addr: &str, network: Network) -> (r: Option<Vec<u8>>)
    ensures
        r is Some <==> script_hash_of(addr@, network) is Some,
        r is Some ==> r->0@ == script_hash_of(addr@, network)->0 && r->0@.len() == 32,
{
    let net = match network {
        Network::Bitcoin => bitcoin::Network::Bitcoin,
        Network::Testnet => bitcoin::Network::Testnet,
        Network::Signet => bitcoin::Network::Signet,
        Network::Regtest => bitcoin::Network::Regtest,
    };
    let unchecked = addr.parse::<bitcoin::Address<bitcoin::address::NetworkUnchecked>>().ok()?;
    let script = unchecked.require_network(net).ok()?.script_pubkey();
    let digest = <bitcoin::hashes::sha256::Hash as bitcoin::hashes::Hash>::hash(script.as_bytes());
    Some(bitcoin::hashes::Hash::to_byte_array(digest).to_vec())
}

/// The addresses among `addrs` that have a script hash on `net`, in order.
pub open spec fn resolvable(addrs: Seq<Seq<char>>, net: Network) -> Seq<Seq<char>>
    decreases addrs.len(),
{
    if addrs.len() == 0 {
        Seq::empty()
    } else {
        let rest = resolvable(addrs.drop_last(), net);
        if script_hash_of(addrs.last(), net) is Some {
            rest.push(addrs.last())
        } else {
            rest
        }
    }
}

/// Resolves a batch of literal addresses: each that converts to a script
/// hash is looked up and turned into the record that `mode` selects; one
/// that does not convert is left out. Order follows the input.
pub fn handle_multiaddr_inner<Q: Query>(
    addresses: Vec<String>,
    query: &Q,
    config: &Config,
    mode: AggregateMode,
) -> (r: Vec<AddressInfo>)
    ensures
        r@.len() == resolvable(views(addresses@), config.network_type).len(),
        forall|k: int|
            #![trigger r@[k]] 0 <= k < r@.len() ==> r@[k].address@ == resolvable(
                views(addresses@),
                config.network_type,
            )[k] && r@[k].has_shape(mode),
{
    let ghost all = views(addresses@);
    let ghost net = config.network_type;
    let mut out: Vec<AddressInfo> = Vec::new();
    let mut i: usize = 0;
    while i < addresses.len()
        invariant
            i <= addresses@.len(),
            all == views(addresses@),
            net == config.network_type,
            out@.len() == resolvable(all.subrange(0, i as int), net).len(),
            forall|k: int|
                #![trigger out@[k]] 0 <= k < out@.len() ==> out@[k].address@ == resolvable(
                    all.subrange(0, i as int),
                    net,
                )[k] && out@[k].has_shape(mode),
        decreases addresses@.len() - i,
    {
        let ghost prefix = all.subrange(0, i as int);
        let ghost next = all.subrange(0, i + 1);
        assert(next.drop_last() =~= prefix);
        assert(next.last() == addresses@[i as int]@);
        let addr = &addresses[i];
        let ghost out0 = out@;
        match to_scripthash(addr.as_str(), config.network_type) {
            Some(hash) => {
                let stats = query.stats(&hash);
                let info = aggregate(mode, addr.clone(), &hash, stats, query, config);
                out.push(info);
                assert(resolvable(next, net) == resolvable(prefix, net).push(next.last()));
                assert forall|k: int| #![trigger out@[k]] 0 <= k < out@.len() implies out@[k].address@
                    == resolvable(next, net)[k] && out@[k].has_shape(mode) by {
                    if k < out0.len() {
                        assert(out@[k] == out0[k]);
                    }
                }
            },
            None => {
                assert(resolvable(next, net) == resolvable(prefix, net));
            },
        }
        assert forall|k: int| #![trigger out@[k]] 0 <= k < out@.len() implies out@[k].address@
            == resolvable(next, net)[k] && out@[k].has_shape(mode) by {
            if k < out0.len() {
                assert(out@[k] == out0[k]);
                assert(out0[k].address@ == resolvable(prefix, net)[k]);
            }
        }
        i += 1;
        assert(all.subrange(0, i as int) == next);
    }
    assert(all.subrange(0, addresses@.len() as int) =~= all);
    assert forall|k: int| #![trigger out@[k]] 0 <= k < out@.len() implies out@[k].address@ == resolvable(
        views(addresses@),
        config.network_type,
    )[k] && out@[k].has_shape(mode) by {
        assert(out@[k].address@ == resolvable(all.subrange(0, addresses@.len() as int), net)[k]);
    }
    out
}

/// Full records for a batch of literal addresses.
pub fn handle_multiaddr_info<Q: Query>(addresses: Vec<String>, query: &Q, config: &Config) -> (r: Vec<
    AddressInfo,
>)
    ensures
        r@.len() == resolvable(views(addresses@), config.network_type).len(),
        forall|k: int|
            #![trigger r@[k]] 0 <= k < r@.len() ==> r@[k].address@ == resolvable(
                views(addresses@),
                config.network_type,
            )[k] && r@[k].has_shape(AggregateMode::Info),
{
    handle_multiaddr_inner(addresses, query, config, AggregateMode::Info)
}

/// Statistics records for a batch of literal addresses.
pub fn handle_multiaddr_stats<Q: Query>(addresses: Vec<String>, query: &Q, config: &Config) -> (r: Vec<
    AddressInfo,
>)
    ensures
        r@.len() == resolvable(views(addresses@), config.network_type).len(),
        forall|k: int|
            #![trigger r@[k]] 0 <= k < r@.len() ==> r@[k].address@ == resolvable(
                views(addresses@),
                config.network_type,
            )[k] && r@[k].has_shape(AggregateMode::Stats),
{
    handle_multiaddr_inner(addresses, query, config, AggregateMode::Stats)
}

/// Unspent-output records for a batch of literal addresses.
pub fn handle_multiaddr_utxo<Q: Query>(addresses: Vec<String>, query: &Q, config: &Config) -> (r: Vec<
    AddressInfo,
>)
    ensures
        r@.len() == resolvable(views(addresses@), config.network_type).len(),
        forall|k: int|
            #![trigger r@[k]] 0 <= k < r@.len() ==> r@[k].address@ == resolvable(
                views(addresses@),
                config.network_type,
            )[k] && r@[k].has_shape(AggregateMode::Utxo),
{
    handle_multiaddr_inner(addresses, query, config, AggregateMode::Utxo)
}

/// An address that has no script hash is dropped from a batch, and the
/// addresses before and after it are kept, in order.
pub proof fn lemma_drop_unresolvable(before: Seq<Seq<char>>, bad: Seq<char>, after: Seq<Seq<char>>, net: Network)
    requires
        script_hash_of(bad, net) is None,
    ensures
        resolvable(before + seq![bad] + after, net) == resolvable(before, net) + resolvable(after, net),
    decreases after.len(),
{
    if after.len() == 0 {
        assert((before + seq![bad] + after).drop_last() =~= before);
        assert(resolvable(after, net) =~= Seq::<Seq<char>>::empty());
        assert(resolvable(before, net) + resolvable(after, net) =~= resolvable(before, net));
    } else {
        let all = before + seq![bad] + after;
        lemma_drop_unresolvable(before, bad, after.drop_last(), net);
        assert(all.drop_last() =~= before + seq![bad] + after.drop_last());
        assert(all.last() == after.last());
        let r1 = resolvable(before, net);
        let r2 = resolvable(after.drop_last(), net);
        if script_hash_of(after.last(), net) is Some {
            assert(r1 + r2.push(after.last()) =~= (r1 + r2).push(after.last()));
        }
    }
}

/// Where a scan over the activity flags `a` stops, having reached position
/// `n` after a run of `run` unused addresses: just past the address that
/// makes the run reach the gap limit, or at the end of `a`.
pub open spec fn scan_end(a: Seq<bool>, n: int, run: nat) -> int
    decreases a.len() - n,
{
    if n < 0 || n >= a.len() {
        a.len() as int
    } else {
        let next_run: nat = if a[n] {
            0
        } else {
            run + 1
        };
        if next_run >= GAP_LIMIT {
            n + 1
        } else {
            scan_end(a, n + 1, next_run)
        }
    }
}

/// The positions of used addresses among the first `n`, ascending.
pub open spec fn used_below(a: Seq<bool>, n: int) -> Seq<int>
    decreases n,
{
    if n <= 0 {
        Seq::empty()
    } else if a[n - 1] {
        used_below(a, n - 1).push(n - 1)
    } else {
        used_below(a, n - 1)
    }
}

/// The run of unused addresses that a scan has just seen.
pub struct GapRun {
    pub run: u32,
}

impl GapRun {
    /// No address seen yet.
    pub fn new() -> (r: GapRun)
        ensures
            r.run == 0,
    {
        GapRun { run: 0 }
    }

    /// Records whether the next address was used, and says whether the run
    /// of unused addresses has now reached the gap limit, which ends a scan.
    pub fn observe(&mut self, used: bool) -> (stop: bool)
        requires
            old(self).run < GAP_LIMIT,
        ensures
            final(self).run == if used {
                0
            } else {
                old(self).run + 1
            },
            stop == (final(self).run >= GAP_LIMIT),
    {
        if used {
            self.run = 0;
        } else {
            self.run = self.run + 1;
        }
        self.run >= GAP_LIMIT
    }
}

/// Whether statistics show any confirmed or unconfirmed activity.
pub fn stats_used(stats: &(ScriptStats, ScriptStats)) -> (r: bool)
    ensures
        r == is_used(*stats),
{
    !(stats.0.is_empty() && stats.1.is_empty())
}

/// Applies the gap-limit rule to activity flags given in derivation order:
/// returns the positions of the used addresses that the scan reaches, and how
/// many addresses it consumes before the unused run reaches the limit (all of
/// them, where it never does).
pub fn gap_limit_scan(activity: &Vec<bool>) -> (r: (Vec<usize>, usize))
    ensures
        r.1 == scan_end(activity@, 0, 0),
        r.0@.map_values(|x: usize| x as int) == used_below(activity@, r.1 as int),
{
    let n = activity.len();
    let mut used: Vec<usize> = Vec::new();
    let mut gap = GapRun::new();
    let mut i: usize = 0;
    while i < n
        invariant
            n == activity@.len(),
            i <= n,
            gap.run < GAP_LIMIT,
            scan_end(activity@, 0, 0) == scan_end(activity@, i as int, gap.run as nat),
            used@.map_values(|x: usize| x as int) == used_below(activity@, i as int),
        decreases n - i,
    {
        let stop = gap.observe(activity[i]);
        if activity[i] {
            used.push(i);
        }
        i += 1;
        assert(used@.map_values(|x: usize| x as int) =~= used_below(activity@, i as int));
        if stop {
            return (used, i);
        }
    }
    (used, n)
}

/// Unused addresses at the end of `obs`, counted back to the last used one.
pub open spec fn trailing_unused(obs: Seq<bool>) -> nat
    decreases obs.len(),
{
    if obs.len() == 0 {
        0
    } else if obs.last() {
        0
    } else {
        trailing_unused(obs.drop_last()) + 1
    }
}

/// Number of used addresses in `obs`.
pub open spec fn used_count(obs: Seq<bool>) -> nat
    decreases obs.len(),
{
    if obs.len() == 0 {
        0
    } else if obs.last() {
        used_count(obs.drop_last()) + 1
    } else {
        used_count(obs.drop_last())
    }
}

/// No prefix of `obs` ends in a run of `GAP_LIMIT` unused addresses.
pub open spec fn below_gap(obs: Seq<bool>) -> bool {
    forall|n: int| 0 <= n <= obs.len() ==> #[trigger] trailing_unused(obs.subrange(0, n)) < GAP_LIMIT
}

/// The activity seen by a finished scan: the run of unused addresses reaches
/// the gap limit at the last address and at no earlier one.
pub open spec fn scan_complete(obs: Seq<bool>) -> bool {
    obs.len() > 0 && below_gap(obs.drop_last()) && trailing_unused(obs) == GAP_LIMIT
}

proof fn lemma_observe(obs: Seq<bool>, b: bool)
    requires
        below_gap(obs),
    ensures
        obs.push(b).drop_last() == obs,
        trailing_unused(obs.push(b)) == if b {
            0
        } else {
            trailing_unused(obs) + 1
        },
        used_count(obs.push(b)) == if b {
            used_count(obs) + 1
        } else {
            used_count(obs)
        },
        trailing_unused(obs.push(b)) < GAP_LIMIT ==> below_gap(obs.push(b)),
{
    let o2 = obs.push(b);
    assert(o2.drop_last() =~= obs);
    if trailing_unused(o2) < GAP_LIMIT {
        assert forall|n: int| 0 <= n <= o2.len() implies #[trigger] trailing_unused(o2.subrange(0, n))
            < GAP_LIMIT by {
            if n <= obs.len() {
                assert(o2.subrange(0, n) =~= obs.subrange(0, n));
            } else {
                assert(o2.subrange(0, n) =~= o2);
            }
        }
    }
}

proof fn lemma_used_below_count(a: Seq<bool>, n: int)
    requires
        0 <= n <= a.len(),
    ensures
        used_below(a, n).len() == used_count(a.subrange(0, n)),
    decreases n,
{
    if n > 0 {
        lemma_used_below_count(a, n - 1);
        assert(a.subrange(0, n).drop_last() =~= a.subrange(0, n - 1));
    }
}

proof fn lemma_scan_end_complete(obs: Seq<bool>, i: int)
    requires
        scan_complete(obs),
        0 <= i < obs.len(),
        trailing_unused(obs.subrange(0, i)) < GAP_LIMIT,
    ensures
        scan_end(obs, i, trailing_unused(obs.subrange(0, i))) == obs.len(),
    decreases obs.len() - i,
{
    let next = obs.subrange(0, i + 1);
    assert(next.drop_last() =~= obs.subrange(0, i));
    assert(next.last() == obs[i]);
    if i + 1 < obs.len() {
        assert(obs.drop_last().subrange(0, i + 1) =~= next);
        assert(trailing_unused(obs.drop_last().subrange(0, i + 1)) < GAP_LIMIT);
        lemma_scan_end_complete(obs, i + 1);
    } else {
        assert(next =~= obs);
    }
}

/// The activity seen by a finished scan of an extended public key is what
/// the gap-limit rule consumes in full: applied to it, `gap_limit_scan` takes
/// every address and finds as many used ones as the scan returned.
pub proof fn lemma_scan_matches_gap_rule(obs: Seq<bool>)
    requires
        scan_complete(obs),
    ensures
        scan_end(obs, 0, 0) == obs.len(),
        used_below(obs, obs.len() as int).len() == used_count(obs),
{
    assert(obs.subrange(0, 0) =~= Seq::<bool>::empty());
    lemma_scan_end_complete(obs, 0);
    lemma_used_below_count(obs, obs.len() as int);
    assert(obs.subrange(0, obs.len() as int) =~= obs);
}

/// Why scanning an extended public key failed.
#[derive(Debug, PartialEq, Eq, Structural)]
pub enum ScanError {
    /// No child key could be derived at this index.
    Derivation { index: u32 },
    /// The address derived at this index has no script hash on the configured network.
    ScriptHash { index: u32 },
}

/// First index of the hardened range, where non-hardened derivation ends.
pub const HARDENED_START: u32 = 0x8000_0000;

/// Largest page number whose indices all fit in `u32`.
pub const MAX_PAGE: u32 = 42949672;

/// Branch of the receive addresses: derivation follows m/`RECEIVE_BRANCH`/i.
pub const RECEIVE_BRANCH: u32 = 0;

/// The pay-to-public-key-hash address, in the format of `network`, of the
/// child key at the non-hardened path m/`branch`/`index` of the extended
/// public key written `xpub`; `None` where the text is no such key or
/// derivation fails.
pub uninterp spec fn child_address_of(xpub: Seq<char>, branch: u32, index: u32, network: Network) -> Option<
    Seq<char>,
>;

/// Relies on bitcoin's `Xpub::from_str`, `ChildNumber::from_normal_idx`,
/// `Xpub::derive_pub`, and `Address::p2pkh` with its `Display`: the address
/// depends on the key's text, the path and the network alone, and
/// `from_normal_idx` refuses an index in the hardened range.
#[verifier::external_body]
fn derive_address(xpub: &str, branch: u32, index: u32, network: Network) -> (r: Option<String>)
    ensures
        r is Some <==> child_address_of(xpub@, branch, index, network) is Some,
        r is Some ==> r->0@ == child_address_of(xpub@, branch, index, network)->0,
        branch >= HARDENED_START || index >= HARDENED_START ==> r is None,
{
    let net = match network {
        Network::Bitcoin => bitcoin::Network::Bitcoin,
        Network::Testnet => bitcoin::Network::Testnet,
        Network::Signet => bitcoin::Network::Signet,
        Network::Regtest => bitcoin::Network::Regtest,
    };
    let key = xpub.parse::<bitcoin::bip32::Xpub>().ok()?;
    let path = [
        bitcoin::bip32::ChildNumber::from_normal_idx(branch).ok()?,
        bitcoin::bip32::ChildNumber::from_normal_idx(index).ok()?,
    ];
    let derived = key.derive_pub(&secp256k1::Secp256k1::verification_only(), &path).ok()?;
    Some(bitcoin::Address::p2pkh(derived.to_pub(), net).to_string())
}

/// The receive address at `index` of the key `xpub` on `net`, with its script hash,
/// or the error that deriving it gives.
pub open spec fn derivation(xpub: Seq<char>, index: u32, net: Network) -> Result<(Seq<char>, Seq<u8>), ScanError> {
    match child_address_of(xpub, RECEIVE_BRANCH, index, net) {
        None => Err(ScanError::Derivation { index }),
        Some(a) => match script_hash_of(a, net) {
            None => Err(ScanError::ScriptHash { index }),
            Some(h) => Ok((a, h)),
        },
    }
}

/// The address derived at `index` (path m/0/`index`) and its script hash.
pub fn derive_by_index(xpub: &str, index: u32, config: &Config) -> (r: Result<(String, Vec<u8>), ScanError>)
    ensures
        match derivation(xpub@, index, config.network_type) {
            Ok(p) => r is Ok && r->Ok_0.0@ == p.0 && r->Ok_0.1@ == p.1,
            Err(e) => r is Err && r->Err_0 == e,
        },
        index >= HARDENED_START ==> r is Err && r->Err_0 == (ScanError::Derivation { index }),
{
    let address = match derive_address(xpub, RECEIVE_BRANCH, index, config.network_type) {
        Some(a) => a,
        None => {
            return Err(ScanError::Derivation { index });
        },
    };
    match to_scripthash(address.as_str(), config.network_type) {
        Some(hash) => Ok((address, hash)),
        None => Err(ScanError::ScriptHash { index }),
    }
}

/// The addresses of page `page` (indices `(page - 1) * 100` up to, not
/// including, `page * 100`), in index order, with their script hashes.
pub fn derive_batch(xpub: &str, page: u32, config: &Config) -> (r: Result<Vec<(String, Vec<u8>)>, ScanError>)
    requires
        1 <= page <= MAX_PAGE,
    ensures
        r is Ok <==> forall|k: int|
            0 <= k < DERIVE_SIZE ==> #[trigger] derivation(
                xpub@,
                ((page - 1) * DERIVE_SIZE + k) as u32,
                config.network_type,
            ) is Ok,
        r is Ok ==> r->Ok_0@.len() == DERIVE_SIZE,
        r is Ok ==> forall|k: int|
            0 <= k < DERIVE_SIZE ==> #[trigger] r->Ok_0@[k].0@ == derivation(
                xpub@,
                ((page - 1) * DERIVE_SIZE + k) as u32,
                config.network_type,
            )->Ok_0.0 && r->Ok_0@[k].1@ == derivation(
                xpub@,
                ((page - 1) * DERIVE_SIZE + k) as u32,
                config.network_type,
            )->Ok_0.1,
{
    let from: u32 = (page - 1) * DERIVE_SIZE;
    let to: u32 = page * DERIVE_SIZE;
    let mut out: Vec<(String, Vec<u8>)> = Vec::new();
    let mut i: u32 = from;
    while i < to
        invariant
            from <= i <= to,
            from == (page - 1) * DERIVE_SIZE,
            to == from + DERIVE_SIZE,
            out@.len() == i - from,
            forall|k: int|
                0 <= k < out@.len() ==> #[trigger] derivation(xpub@, (from + k) as u32, config.network_type)
                    is Ok,
            forall|k: int|
                0 <= k < out@.len() ==> #[trigger] out@[k].0@ == derivation(
                    xpub@,
                    (from + k) as u32,
                    config.network_type,
                )->Ok_0.0 && out@[k].1@ == derivation(xpub@, (from + k) as u32, config.network_type)->Ok_0.1,
        decreases to - i,
    {
        match derive_by_index(xpub, i, config) {
            Ok(pair) => {
                out.push(pair);
            },
            Err(e) => {
                assert(derivation(xpub@, ((page - 1) * DERIVE_SIZE + (i - from)) as u32, config.network_type) is Err);
                return Err(e);
            },
        }
        i += 1;
    }
    Ok(out)
}

/// Whether statistics show any confirmed or unconfirmed activity.
pub open spec fn is_used(st: (ScriptStats, ScriptStats)) -> bool {
    !(st.0.is_empty_spec() && st.1.is_empty_spec())
}

/// The activity flags of the statistics seen, in order.
pub open spec fn activity_of(obs: Seq<(ScriptStats, ScriptStats)>) -> Seq<bool> {
    obs.map_values(|st: (ScriptStats, ScriptStats)| is_used(st))
}

/// What a scan of an extended public key found: the records of the used
/// addresses, and the statistics returned for each address it looked up,
/// by derivation index.
pub struct XpubScan {
    pub records: Vec<AddressInfo>,
    pub observed: Vec<(ScriptStats, ScriptStats)>,
}

/// A scan error stands at the first index whose derivation fails.
pub open spec fn first_failure(xpub: Seq<char>, net: Network, e: ScanError) -> bool {
    let index = match e {
        ScanError::Derivation { index } => index,
        ScanError::ScriptHash { index } => index,
    };
    &&& derivation(xpub, index, net) == Err::<(Seq<char>, Seq<u8>), ScanError>(e)
    &&& forall|j: u32| j < index ==> #[trigger] derivation(xpub, j, net) is Ok
}

/// A finished scan: the gap rule consumed exactly the addresses looked up,
/// each of them derived, and the records are those of the used ones, in
/// index order, with the statistics seen for them.
pub open spec fn scan_result(xpub: Seq<char>, net: Network, mode: AggregateMode, s: XpubScan) -> bool {
    let act = activity_of(s.observed@);
    let used = used_below(act, act.len() as int);
    &&& scan_complete(act)
    &&& scan_end(act, 0, 0) == act.len()
    &&& act.len() <= HARDENED_START
    &&& forall|j: int| 0 <= j < act.len() ==> #[trigger] derivation(xpub, j as u32, net) is Ok
    &&& s.records@.len() == used.len()
    &&& forall|k: int|
        #![trigger s.records@[k]]
        0 <= k < s.records@.len() ==> {
            &&& s.records@[k].address@ == derivation(xpub, used[k] as u32, net)->Ok_0.0
            &&& s.records@[k].has_shape(mode)
            &&& mode != AggregateMode::Utxo ==> s.records@[k].chain_stats == Some(
                s.observed@[used[k]].0,
            ) && s.records@[k].mempool_stats == Some(s.observed@[used[k]].1)
        }
}

proof fn lemma_used_below_prefix(a: Seq<bool>, b: bool, n: int)
    requires
        0 <= n <= a.len(),
    ensures
        used_below(a.push(b), n) == used_below(a, n),
    decreases n,
{
    if n > 0 {
        lemma_used_below_prefix(a, b, n - 1);
        assert(a.push(b)[n - 1] == a[n - 1]);
    }
}

proof fn lemma_used_below_range(a: Seq<bool>, n: int)
    requires
        0 <= n,
    ensures
        forall|k: int| 0 <= k < used_below(a, n).len() ==> 0 <= #[trigger] used_below(a, n)[k] < n,
    decreases n,
{
    if n > 0 {
        lemma_used_below_range(a, n - 1);
        let prev = used_below(a, n - 1);
        assert forall|k: int| 0 <= k < used_below(a, n).len() implies 0 <= #[trigger] used_below(a, n)[k] < n by {
            if a[n - 1] {
                assert(used_below(a, n) == prev.push(n - 1));
                if k < prev.len() {
                    assert(used_below(a, n)[k] == prev[k]);
                }
            } else {
                assert(used_below(a, n) == prev);
            }
        }
    }
}

/// Scans the addresses derived from `xpub` in index order, one at a time:
/// each is derived and looked up, a used one (with confirmed or unconfirmed
/// activity) is turned into the record that `mode` selects, and the scan
/// stops once `GAP_LIMIT` unused addresses have come in a row, the run
/// carrying over from page to page. The first index whose derivation fails
/// fails the whole scan.
pub fn handle_xpub_inner<Q: Query>(xpub: &str, query: &Q, config: &Config, mode: AggregateMode) -> (r: Result<
    XpubScan,
    ScanError,
>)
    ensures
        r is Ok ==> scan_result(xpub@, config.network_type, mode, r->Ok_0),
        r is Err ==> first_failure(xpub@, config.network_type, r->Err_0),
{
    let ghost net = config.network_type;
    let mut records: Vec<AddressInfo> = Vec::new();
    let mut observed: Vec<(ScriptStats, ScriptStats)> = Vec::new();
    let mut gap = GapRun::new();
    let mut i: u32 = 0;
    proof {
        assert(activity_of(observed@) =~= Seq::<bool>::empty());
        assert forall|n: int| 0 <= n <= 0 implies #[trigger] trailing_unused(
            Seq::<bool>::empty().subrange(0, n),
        ) < GAP_LIMIT by {
            assert(Seq::<bool>::empty().subrange(0, n) =~= Seq::<bool>::empty());
        }
    }
    while i <= HARDENED_START
        invariant
            i <= HARDENED_START,
            net == config.network_type,
            observed@.len() == i,
            gap.run < GAP_LIMIT,
            below_gap(activity_of(observed@)),
            gap.run as nat == trailing_unused(activity_of(observed@)),
            forall|j: u32| j < i ==> #[trigger] derivation(xpub@, j, net) is Ok,
            records@.len() == used_below(activity_of(observed@), i as int).len(),
            forall|k: int|
                #![trigger records@[k]]
                0 <= k < records@.len() ==> {
                    let used = used_below(activity_of(observed@), i as int);
                    &&& records@[k].address@ == derivation(xpub@, used[k] as u32, net)->Ok_0.0
                    &&& records@[k].has_shape(mode)
                    &&& mode != AggregateMode::Utxo ==> records@[k].chain_stats == Some(
                        observed@[used[k]].0,
                    ) && records@[k].mempool_stats == Some(observed@[used[k]].1)
                },
        decreases HARDENED_START - i,
    {
        let (addr, hash) = match derive_by_index(xpub, i, config) {
            Ok(p) => p,
            Err(e) => {
                return Err(e);
            },
        };
        let stats = query.stats(&hash);
        let used = stats_used(&stats);
        let ghost old_obs = observed@;
        let ghost old_act = activity_of(old_obs);
        let ghost old_records = records@;
        observed.push(stats);
        proof {
            assert(activity_of(observed@) =~= old_act.push(used));
            lemma_observe(old_act, used);
            lemma_used_below_prefix(old_act, used, i as int);
            lemma_used_below_range(old_act, i as int);
            assert forall|k: int| 0 <= k < used_below(old_act, i as int).len() implies observed@[#[trigger] used_below(old_act, i as int)[k]]
                == old_obs[used_below(old_act, i as int)[k]] by {}
        }
        let stop = gap.observe(used);
        if used {
            let info = aggregate(mode, addr, &hash, stats, query, config);
            records.push(info);
            proof {
                let act = activity_of(observed@);
                assert(act[i as int]);
                assert(used_below(act, i + 1) == used_below(act, i as int).push(i as int));
                assert forall|k: int| #![trigger records@[k]] 0 <= k < records@.len() implies {
                    let u = used_below(act, i + 1);
                    &&& records@[k].address@ == derivation(xpub@, u[k] as u32, net)->Ok_0.0
                    &&& records@[k].has_shape(mode)
                    &&& mode != AggregateMode::Utxo ==> records@[k].chain_stats == Some(
                        observed@[u[k]].0,
                    ) && records@[k].mempool_stats == Some(observed@[u[k]].1)
                } by {
                    if k < old_records.len() {
                        assert(records@[k] == old_records[k]);
                    }
                }
            }
        } else {
            proof {
                let act = activity_of(observed@);
                assert(!act[i as int]);
                assert(used_below(act, i + 1) == used_below(act, i as int));
            }
            if stop {
                let ghost act = activity_of(observed@);
                proof {
                    lemma_scan_matches_gap_rule(act);
                    assert forall|j: int| 0 <= j < act.len() implies #[trigger] derivation(xpub@, j as u32, net)
                        is Ok by {
                        if j < i {
                            assert(derivation(xpub@, j as u32, net) is Ok);
                        }
                    }
                }
                return Ok(XpubScan { records, observed });
            }
        }
        i += 1;
    }
    Err(ScanError::Derivation { index: HARDENED_START })
}

/// Full records for the used addresses of an extended public key.
pub fn handle_xpub_info<Q: Query>(xpub: &str, query: &Q, config: &Config) -> (r: Result<XpubScan, ScanError>)
    ensures
        r is Ok ==> scan_result(xpub@, config.network_type, AggregateMode::Info, r->Ok_0),
        r is Err ==> first_failure(xpub@, config.network_type, r->Err_0),
{
    handle_xpub_inner(xpub, query, config, AggregateMode::Info)
}

/// Statistics records for the used addresses of an extended public key.
pub fn handle_xpub_stats<Q: Query>(xpub: &str, query: &Q, config: &Config) -> (r: Result<XpubScan, ScanError>)
    ensures
        r is Ok ==> scan_result(xpub@, config.network_type, AggregateMode::Stats, r->Ok_0),
        r is Err ==> first_failure(xpub@, config.network_type, r->Err_0),
{
    handle_xpub_inner(xpub, query, config, AggregateMode::Stats)
}

/// Unspent-output records for the used addresses of an extended public key.
pub fn handle_xpub_utxo<Q: Query>(xpub: &str, query: &Q, config: &Config) -> (r: Result<XpubScan, ScanError>)
    ensures
        r is Ok ==> scan_result(xpub@, config.network_type, AggregateMode::Utxo, r->Ok_0),
        r is Err ==> first_failure(xpub@, config.network_type, r->Err_0),
{
    handle_xpub_inner(xpub, query, config, AggregateMode::Utxo)
}

} // verus!
