//! WebAuthn challenges: random, time-limited and single-use.
//! Times are Unix times in microseconds.
use vstd::prelude::*;
use dashmap::DashMap;
use rand::RngCore;
use crate::domain::session::ttl_fits;
use crate::ids::{UserId, MAX_TTL_SECONDS, MICROS_PER_SECOND};
use crate::jwt::encoding::{b64url_encode, b64url_text};
use crate::webauthn::types::WebAuthnError;
use crate::text::string_views;

verus! {

/// Ceremony a challenge belongs to.
#[derive(Debug, Clone, Copy, PartialEq, Eq, Structural)]
pub enum ChallengeType {
    Registration,
    Authentication,
}

/// A challenge as stored until its ceremony completes.
#[derive(Debug)]
pub struct StoredChallenge {
    /// 32 random bytes.
    pub challenge: Vec<u8>,
    pub user_id: UserId,
    pub created_at: i64,
    pub expires_at: i64,
    pub challenge_type: ChallengeType,
}

/// A stored challenge as plain values: bytes, user, creation, expiry, and
/// whether it is for registration.
pub type ChallengeView = (Seq<u8>, u128, i64, i64, bool);

/// The plain values of a stored challenge.
pub open spec fn challenge_view(c: StoredChallenge) -> ChallengeView {
    (c.challenge@, c.user_id.0, c.created_at, c.expires_at, c.challenge_type == ChallengeType::Registration)
}

/// Calls `rand::RngCore::fill_bytes` on the thread's generator: `n` random
/// bytes (their values depend on chance; nothing is said of them).
#[verifier::external_body]
pub fn random_bytes(n: usize) -> (r: Vec<u8>)
    ensures
        r@.len() == n,
{
    let mut v = vec![0u8; n];
    rand::thread_rng().fill_bytes(&mut v);
    v
}

/// Makes challenges.
pub struct ChallengeGenerator {
    /// Lifetime of a challenge, in seconds.
    pub ttl_seconds: i64,
}

impl ChallengeGenerator {
    /// A generator of challenges living `ttl_seconds`.
    pub fn new(ttl_seconds: i64) -> (g: ChallengeGenerator)
        ensures
            g.ttl_seconds == ttl_seconds,
    {
        ChallengeGenerator { ttl_seconds }
    }

    /// A challenge created now (by the clock), as `generate_at`; `None` when
    /// its expiry cannot be represented.
    pub fn generate(&self, user_id: UserId, challenge_type: ChallengeType) -> (c: Option<StoredChallenge>)
        ensures
            c matches Some(x) ==> (x.challenge@.len() == 32 && x.user_id == user_id
                && x.expires_at == x.created_at + self.ttl_seconds * MICROS_PER_SECOND
                && x.challenge_type == challenge_type),
            c is None ==> exists|now: i64| !#[trigger] ttl_fits(now, self.ttl_seconds),
    {
        let now = crate::ids::now_micros();
        if !crate::domain::session::ttl_fits_at(now, self.ttl_seconds) {
            return None;
        }
        Some(self.generate_at(user_id, challenge_type, now))
    }

    /// A fresh challenge for `user_id`, made at `now`: 32 random bytes,
    /// expiring after the generator's lifetime.
    pub fn generate_at(&self, user_id: UserId, challenge_type: ChallengeType, now: i64) -> (c: StoredChallenge)
        requires
            ttl_fits(now, self.ttl_seconds),
        ensures
            c.challenge@.len() == 32,
            c.user_id == user_id,
            c.created_at == now,
            c.expires_at == now + self.ttl_seconds * MICROS_PER_SECOND,
            c.challenge_type == challenge_type,
    {
        StoredChallenge {
            challenge: random_bytes(32),
            user_id,
            created_at: now,
            expires_at: now + self.ttl_seconds * MICROS_PER_SECOND,
            challenge_type,
        }
    }
}

impl Default for ChallengeGenerator {
    /// Challenges living 5 minutes.
    fn default() -> (g: ChallengeGenerator)
        ensures
            g.ttl_seconds == 300,
    {
        ChallengeGenerator::new(300)
    }
}

/// A table of challenges.
pub type ChallengeTable = DashMap<String, StoredChallenge>;

/// What a table of challenges holds: each identifier with its challenge.
pub uninterp spec fn challenge_table(m: ChallengeTable) -> Map<Seq<char>, ChallengeView>;

/// No challenges.
pub open spec fn no_challenges() -> Map<Seq<char>, ChallengeView> {
    Map::empty()
}

/// Calls `DashMap::new`: an empty table.
#[verifier::external_body]
fn table_new() -> (r: ChallengeTable)
    ensures
        challenge_table(r) == no_challenges(),
{
    DashMap::new()
}

/// Calls `DashMap::insert`: `k` now holds `c`.
#[verifier::external_body]
fn table_insert(m: &mut ChallengeTable, k: String, c: StoredChallenge)
    ensures
        challenge_table(*final(m)) == challenge_table(*old(m)).insert(k@, challenge_view(c)),
{
    m.insert(k, c);
}

/// Calls `DashMap::remove`: takes the challenge of `k` out of the table.
#[verifier::external_body]
fn table_remove(m: &mut ChallengeTable, k: &str) -> (r: Option<StoredChallenge>)
    ensures
        challenge_table(*final(m)) == challenge_table(*old(m)).remove(k@),
        match r {
            Some(c) => challenge_table(*old(m)).contains_key(k@) && challenge_table(*old(m))[k@] == challenge_view(c),
            None => !challenge_table(*old(m)).contains_key(k@),
        },
{
    m.remove(k).map(|(_, c)| c)
}

/// Calls `DashMap::contains_key`.
#[verifier::external_body]
fn table_contains(m: &ChallengeTable, k: &str) -> (r: bool)
    ensures
        r == challenge_table(*m).contains_key(k@),
{
    m.contains_key(k)
}

/// Calls `DashMap::len`: the number of challenges.
#[verifier::external_body]
fn table_len(m: &ChallengeTable) -> (r: usize)
    ensures
        r == challenge_table(*m).dom().len(),
{
    m.len()
}

/// Calls `DashMap::iter` and copies each identifier out, in the table's
/// iteration order (which is left unsaid): each identifier once.
#[verifier::external_body]
fn table_ids(m: &ChallengeTable) -> (r: Vec<String>)
    ensures
        string_views(r@).to_set() == challenge_table(*m).dom(),
        string_views(r@).no_duplicates(),
{
    m.iter().map(|e| e.key().clone()).collect()
}

/// Whether a challenge is still live at `now` (it expires after `now`).
pub fn challenge_is_live(c: &StoredChallenge, now: i64) -> (b: bool)
    ensures
        b == (c.expires_at > now),
{
    c.expires_at > now
}

/// The challenges of `m` live at `now`.
pub open spec fn live_challenges(m: Map<Seq<char>, ChallengeView>, now: i64) -> Map<Seq<char>, ChallengeView> {
    m.restrict(m.dom().filter(|k: Seq<char>| m[k].3 > now))
}

/// Calls `DashMap::retain` with `challenge_is_live`.
#[verifier::external_body]
fn table_retain_live(m: &mut ChallengeTable, now: i64)
    ensures
        challenge_table(*final(m)) == live_challenges(challenge_table(*old(m)), now),
{
    m.retain(|_, c| challenge_is_live(c, now));
}

/// Challenge store in memory.
pub struct InMemoryChallengeStore {
    challenges: ChallengeTable,
}

impl InMemoryChallengeStore {
    /// The challenges held, by identifier.
    pub closed spec fn held(&self) -> Map<Seq<char>, ChallengeView> {
        challenge_table(self.challenges)
    }

    /// An empty store.
    pub fn new() -> (s: InMemoryChallengeStore)
        ensures
            s.held() == no_challenges(),
    {
        InMemoryChallengeStore { challenges: table_new() }
    }

    /// A fresh identifier: 16 random bytes, base64url.
    fn generate_id() -> (id: String)
        ensures
            exists|b: Seq<u8>| b.len() == 16 && id@ == b64url_text(b),
    {
        let bytes = random_bytes(16);
        b64url_encode(bytes.as_slice())
    }

    /// Stores `challenge` under a fresh random identifier, returned.
    pub fn store(&mut self, challenge: StoredChallenge) -> (r: Result<String, WebAuthnError>)
        ensures
            r matches Ok(id) && final(self).held() == old(self).held().insert(id@, challenge_view(challenge)),
    {
        let id = Self::generate_id();
        table_insert(&mut self.challenges, id.clone(), challenge);
        Ok(id)
    }

    /// Takes the challenge `challenge_id` out of the store (whatever the
    /// outcome, it cannot be used again): `ChallengeNotFound` when absent,
    /// `ChallengeExpired` when it expired before `now`.
    pub fn consume_at(&mut self, challenge_id: &str, now: i64) -> (r: Result<StoredChallenge, WebAuthnError>)
        ensures
            final(self).held() == old(self).held().remove(challenge_id@),
            !old(self).held().contains_key(challenge_id@) ==> r matches Err(WebAuthnError::ChallengeNotFound),
            old(self).held().contains_key(challenge_id@) && now > old(self).held()[challenge_id@].3
                ==> r matches Err(WebAuthnError::ChallengeExpired),
            old(self).held().contains_key(challenge_id@) && now <= old(self).held()[challenge_id@].3
                ==> (r matches Ok(c) && challenge_view(c) == old(self).held()[challenge_id@]),
    {
        match table_remove(&mut self.challenges, challenge_id) {
            None => Err(WebAuthnError::ChallengeNotFound),
            Some(c) => {
                if now > c.expires_at {
                    Err(WebAuthnError::ChallengeExpired)
                } else {
                    Ok(c)
                }
            },
        }
    }

    /// Whether a challenge is held under `challenge_id`.
    pub fn challenge_exists(&self, challenge_id: &str) -> (r: Result<bool, WebAuthnError>)
        ensures
            r matches Ok(b) && b == self.held().contains_key(challenge_id@),
    {
        Ok(table_contains(&self.challenges, challenge_id))
    }

    /// Drops the challenges expired at `now` (expiring at or before it);
    /// returns how many were dropped.
    pub fn cleanup_expired_at(&mut self, now: i64) -> (r: Result<usize, WebAuthnError>)
        ensures
            final(self).held() == live_challenges(old(self).held(), now),
            r matches Ok(n) && n == old(self).held().dom().len() - final(self).held().dom().len(),
    {
        let ids = table_ids(&self.challenges);
        proof {
            vstd::seq_lib::seq_to_set_is_finite(string_views(ids@));
            string_views(ids@).unique_seq_to_set();
        }
        let before = ids.len();
        table_retain_live(&mut self.challenges, now);
        let after = table_len(&self.challenges);
        proof {
            vstd::set_lib::lemma_len_subset(self.held().dom(), old(self).held().dom());
        }
        Ok(before - after)
    }
}

/// A challenge consumed once cannot be consumed again.
pub proof fn lemma_challenge_single_use(m: Map<Seq<char>, ChallengeView>, id: Seq<char>)
    ensures
        !m.remove(id).contains_key(id),
{
}

} // verus!
