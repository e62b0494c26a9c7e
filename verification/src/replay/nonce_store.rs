//! Nonces already seen, kept until they expire, so that a token's nonce is
//! accepted once. Times are Unix times in microseconds.
use vstd::prelude::*;
use dashmap::DashMap;
use crate::domain::session::ttl_fits;
use crate::ids::{TokenId, MICROS_PER_SECOND};
use crate::keyed::{pairs_map, keys_unique, lemma_pairs_map};

verus! {

#[verifier::external_type_specification]
#[verifier::external_body]
#[verifier::reject_recursive_types(K)]
#[verifier::reject_recursive_types(V)]
#[verifier::reject_recursive_types(S)]
pub struct ExDashMap<K, V, S>(DashMap<K, V, S>);

/// Nonce store errors.
#[derive(Debug)]
pub enum NonceStoreError {
    NonceAlreadyUsed,
    Storage(String),
    NonceExpired,
}

/// What the store keeps of a nonce.
#[derive(Debug, Clone, Copy)]
pub struct NonceEntry {
    pub first_seen: i64,
    pub token_id: TokenId,
    pub expires_at: i64,
}

/// An entry as plain values: first seen, token identifier, expiry.
pub type EntryView = (i64, u128, i64);

/// The plain values of an entry.
pub open spec fn entry_view(e: NonceEntry) -> EntryView {
    (e.first_seen, e.token_id.0, e.expires_at)
}

/// A table of nonces.
pub type NonceTable = DashMap<String, NonceEntry>;

/// What a table of nonces holds: each nonce with its entry.
pub uninterp spec fn nonce_table(m: NonceTable) -> Map<Seq<char>, EntryView>;

/// No entries.
pub open spec fn no_entries() -> Map<Seq<char>, EntryView> {
    Map::empty()
}

/// Calls `DashMap::new`: an empty table.
#[verifier::external_body]
fn table_new() -> (r: NonceTable)
    ensures
        nonce_table(r) == no_entries(),
{
    DashMap::new()
}

/// Calls `DashMap::get`: a copy of the entry of `k`, if any.
#[verifier::external_body]
fn table_get(m: &NonceTable, k: &str) -> (r: Option<NonceEntry>)
    ensures
        match r {
            Some(e) => nonce_table(*m).contains_key(k@) && nonce_table(*m)[k@] == entry_view(e),
            None => !nonce_table(*m).contains_key(k@),
        },
{
    m.get(k).map(|r| *r.value())
}

/// Calls `DashMap::insert`: `k` now holds `e` (a previous entry is replaced).
#[verifier::external_body]
fn table_insert(m: &mut NonceTable, k: String, e: NonceEntry)
    ensures
        nonce_table(*final(m)) == nonce_table(*old(m)).insert(k@, entry_view(e)),
{
    m.insert(k, e);
}

/// Calls `DashMap::len`: the number of entries.
#[verifier::external_body]
fn table_len(m: &NonceTable) -> (r: usize)
    ensures
        r == nonce_table(*m).dom().len(),
{
    m.len()
}

/// Whether an entry is still live at `now` (it expires after `now`, or at it).
pub fn entry_is_live(e: &NonceEntry, now: i64) -> (b: bool)
    ensures
        b == (now <= e.expires_at),
{
    now <= e.expires_at
}

/// The entries of `m` live at `now`.
pub open spec fn live_entries(m: Map<Seq<char>, EntryView>, now: i64) -> Map<Seq<char>, EntryView> {
    m.restrict(m.dom().filter(|k: Seq<char>| now <= m[k].2))
}

/// Calls `DashMap::retain` with `entry_is_live`: the entries expired at
/// `now` are dropped, the others kept.
#[verifier::external_body]
fn table_retain_live(m: &mut NonceTable, now: i64)
    ensures
        nonce_table(*final(m)) == live_entries(nonce_table(*old(m)), now),
{
    m.retain(|_, e| entry_is_live(e, now));
}

/// Calls `DashMap::iter` and copies each entry out, in the table's
/// iteration order (which is left unsaid): the copies name each nonce once
/// and describe the table.
#[verifier::external_body]
fn table_entries(m: &NonceTable) -> (r: Vec<(String, NonceEntry)>)
    ensures
        keys_unique(entry_views(r@)),
        pairs_map(entry_views(r@)) == nonce_table(*m),
{
    m.iter().map(|r| (r.key().clone(), *r.value())).collect()
}

/// The plain values of copied entries.
pub open spec fn entry_views(s: Seq<(String, NonceEntry)>) -> Seq<(Seq<char>, EntryView)> {
    s.map_values(|p: (String, NonceEntry)| (p.0@, entry_view(p.1)))
}

/// Nonce store statistics.
#[derive(Debug, Clone)]
pub struct NonceStoreStats {
    pub total_nonces: usize,
    pub expired_nonces: usize,
    pub replay_attempts: usize,
}

/// Outcome of checking `nonce` at `now` against the entries `m`: unknown
/// nonces pass; a known nonce is a replay while its entry is live, and
/// expired otherwise.
pub open spec fn check_outcome(m: Map<Seq<char>, EntryView>, nonce: Seq<char>, now: i64) -> Option<NonceStoreError> {
    if !m.contains_key(nonce) {
        None
    } else if now > m[nonce].2 {
        Some(NonceStoreError::NonceExpired)
    } else {
        Some(NonceStoreError::NonceAlreadyUsed)
    }
}

/// Nonce store in memory.
pub struct InMemoryNonceStore {
    nonces: NonceTable,
    replay_attempts: usize,
}

impl InMemoryNonceStore {
    /// The nonces held, with their entries.
    pub closed spec fn entries(&self) -> Map<Seq<char>, EntryView> {
        nonce_table(self.nonces)
    }

    /// Number of replays seen.
    pub closed spec fn replays(&self) -> usize {
        self.replay_attempts
    }

    /// An empty store.
    pub fn new() -> (s: InMemoryNonceStore)
        ensures
            s.entries() == Map::<Seq<char>, EntryView>::empty(),
            s.replays() == 0,
    {
        InMemoryNonceStore { nonces: table_new(), replay_attempts: 0 }
    }

    /// Checks `nonce` at `now`: `NonceAlreadyUsed` (counted as a replay)
    /// while a live entry holds it, `NonceExpired` once that entry has
    /// expired, success for an unknown nonce.
    pub fn check_nonce_at(&mut self, nonce: &str, now: i64) -> (r: Result<(), NonceStoreError>)
        ensures
            final(self).entries() == old(self).entries(),
            match check_outcome(old(self).entries(), nonce@, now) {
                None => r is Ok && final(self).replays() == old(self).replays(),
                Some(NonceStoreError::NonceExpired) => r matches Err(NonceStoreError::NonceExpired)
                    && final(self).replays() == old(self).replays(),
                Some(_) => r matches Err(NonceStoreError::NonceAlreadyUsed)
                    && final(self).replays() == old(self).replays().wrapping_add(1),
            },
    {
        match table_get(&self.nonces, nonce) {
            Some(e) => {
                if now > e.expires_at {
                    return Err(NonceStoreError::NonceExpired);
                }
                self.replay_attempts = self.replay_attempts.wrapping_add(1);
                Err(NonceStoreError::NonceAlreadyUsed)
            },
            None => Ok(()),
        }
    }

    /// Records `nonce` for `token_id` at `now`, expiring `ttl` seconds later.
    pub fn store_nonce_at(&mut self, nonce: &str, token_id: TokenId, ttl: i64, now: i64) -> (r: Result<(), NonceStoreError>)
        requires
            ttl_fits(now, ttl),
        ensures
            r is Ok,
            final(self).entries() == old(self).entries().insert(nonce@, (now, token_id.0, (now + ttl * MICROS_PER_SECOND) as i64)),
            final(self).replays() == old(self).replays(),
    {
        let entry = NonceEntry { first_seen: now, token_id, expires_at: now + ttl * MICROS_PER_SECOND };
        table_insert(&mut self.nonces, String::from_str(nonce), entry);
        Ok(())
    }

    /// Checks `nonce` and, when it passes, records it (see `check_nonce_at`
    /// and `store_nonce_at`).
    pub fn check_and_store_at(&mut self, nonce: &str, token_id: TokenId, ttl: i64, now: i64) -> (r: Result<(), NonceStoreError>)
        requires
            ttl_fits(now, ttl),
        ensures
            match check_outcome(old(self).entries(), nonce@, now) {
                None => r is Ok && final(self).entries()
                    == old(self).entries().insert(nonce@, (now, token_id.0, (now + ttl * MICROS_PER_SECOND) as i64))
                    && final(self).replays() == old(self).replays(),
                Some(NonceStoreError::NonceExpired) => r matches Err(NonceStoreError::NonceExpired)
                    && final(self).entries() == old(self).entries() && final(self).replays() == old(self).replays(),
                Some(_) => r matches Err(NonceStoreError::NonceAlreadyUsed)
                    && final(self).entries() == old(self).entries()
                    && final(self).replays() == old(self).replays().wrapping_add(1),
            },
    {
        match self.check_nonce_at(nonce, now) {
            Err(e) => {
                return Err(e);
            },
            Ok(()) => {},
        }
        self.store_nonce_at(nonce, token_id, ttl, now)
    }

    /// Drops the entries expired at `now`; returns how many were dropped.
    pub fn cleanup_expired_at(&mut self, now: i64) -> (removed: usize)
        ensures
            final(self).entries() == live_entries(old(self).entries(), now),
            removed == old(self).entries().dom().len() - final(self).entries().dom().len(),
            final(self).replays() == old(self).replays(),
    {
        let all = table_entries(&self.nonces);
        proof { lemma_pairs_map(entry_views(all@)); }
        let before = table_len(&self.nonces);
        table_retain_live(&mut self.nonces, now);
        let after = table_len(&self.nonces);
        proof {
            let m = nonce_table(self.nonces);
            assert(m.dom().subset_of(old(self).entries().dom()));
            vstd::set_lib::lemma_len_subset(m.dom(), old(self).entries().dom());
        }
        before - after
    }

    /// Statistics at `now`: entries held, entries expired, replays seen.
    pub fn stats_at(&self, now: i64) -> (s: NonceStoreStats)
        ensures
            s.total_nonces == self.entries().dom().len(),
            s.expired_nonces == self.entries().dom().filter(|k: Seq<char>| now > self.entries()[k].2).len(),
            s.replay_attempts == self.replays(),
    {
        let total = table_len(&self.nonces);
        let all = table_entries(&self.nonces);
        let ghost ev = entry_views(all@);
        proof { lemma_pairs_map(ev); }
        let mut expired: usize = 0;
        let mut i: usize = 0;
        while i < all.len()
            invariant
                i <= all@.len(),
                ev == entry_views(all@),
                keys_unique(ev),
                expired == count_expired(ev.subrange(0, i as int), now),
                expired <= i,
            decreases all@.len() - i,
        {
            proof {
                assert(ev.subrange(0, i + 1).drop_last() =~= ev.subrange(0, i as int));
                assert(ev[i as int].1 == entry_view(all@[i as int].1));
            }
            if all[i].1.expires_at < now {
                expired = expired + 1;
            }
            i += 1;
        }
        proof {
            assert(ev.subrange(0, ev.len() as int) =~= ev);
            lemma_count_expired(ev, now);
        }
        NonceStoreStats { total_nonces: total, expired_nonces: expired, replay_attempts: self.replay_attempts }
    }
}

/// Number of pairs of `s` expired at `now`.
pub open spec fn count_expired(s: Seq<(Seq<char>, EntryView)>, now: i64) -> nat
    decreases s.len(),
{
    if s.len() == 0 {
        0
    } else {
        count_expired(s.drop_last(), now) + (if now > s.last().1.2 { 1nat } else { 0nat })
    }
}

proof fn lemma_count_expired(s: Seq<(Seq<char>, EntryView)>, now: i64)
    requires
        keys_unique(s),
    ensures
        count_expired(s, now) == pairs_map(s).dom().filter(|k: Seq<char>| now > pairs_map(s)[k].2).len(),
    decreases s.len(),
{
    let f = |k: Seq<char>| now > pairs_map(s)[k].2;
    if s.len() == 0 {
        assert(pairs_map(s).dom().filter(f) =~= Set::<Seq<char>>::empty());
    } else {
        let d = s.drop_last();
        assert forall|i: int, j: int| 0 <= i < d.len() && 0 <= j < d.len() && i != j implies d[i].0 != d[j].0 by {
            assert(d[i] == s[i] && d[j] == s[j]);
        }
        lemma_count_expired(d, now);
        lemma_pairs_map(d);
        let (k, v) = s.last();
        let pd = pairs_map(d);
        let fd = |x: Seq<char>| now > pd[x].2;
        assert(!pd.contains_key(k)) by {
            if pd.contains_key(k) {
                let i = choose|i: int| 0 <= i < d.len() && d[i].0 == k;
                assert(s[i] == d[i]);
                assert(s[s.len() - 1].0 == k);
            }
        }
        let big = pairs_map(s).dom().filter(f);
        let small = pd.dom().filter(fd);
        assert(pd.dom().finite());
        if now > v.2 {
            assert(big =~= small.insert(k));
        } else {
            assert(big =~= small);
        }
    }
}

/// A nonce accepted at `now` for `ttl` seconds is refused as a replay by
/// any later check before it expires.
pub proof fn lemma_nonce_single_use(m: Map<Seq<char>, EntryView>, nonce: Seq<char>, token_id: u128, ttl: i64, now: i64, later: i64)
    requires
        ttl_fits(now, ttl),
        now <= later <= now + ttl * MICROS_PER_SECOND,
    ensures
        check_outcome(m.insert(nonce, (now, token_id, (now + ttl * MICROS_PER_SECOND) as i64)), nonce, later)
            == Some(NonceStoreError::NonceAlreadyUsed),
{
}

} // verus!
