//! Key layout and expiry arithmetic of the Redis revocation store. The
//! store's connection and commands live with the service; this part decides
//! the keys and lifetimes. Times are Unix times in microseconds.
use vstd::prelude::*;
use crate::ids::{TokenId, UserId, uuid_text};
use crate::domain::token::{seconds_between, whole_seconds_between};
use crate::text::concat2;
use crate::revocation::store::{RevocationReason, RevocationStats, RevokedToken, reason_description};

verus! {

/// Extra lifetime of a user's token set beyond its token, in seconds.
pub const USER_SET_GRACE_SECONDS: i64 = 86_400;

/// Key layout of the Redis revocation store.
pub struct RedisRevocationStore {
    /// Prefix of the key of a revoked token.
    pub key_prefix: String,
    /// Prefix of the key of a user's set of revoked tokens.
    pub user_key_prefix: String,
}

impl RedisRevocationStore {
    /// The default layout: "auth:revoked:" and "auth:user_tokens:".
    pub fn new() -> (s: RedisRevocationStore)
        ensures
            s.key_prefix@ == "auth:revoked:"@,
            s.user_key_prefix@ == "auth:user_tokens:"@,
    {
        RedisRevocationStore {
            key_prefix: String::from_str("auth:revoked:"),
            user_key_prefix: String::from_str("auth:user_tokens:"),
        }
    }

    /// A layout with the given prefixes.
    pub fn with_prefixes(key_prefix: String, user_key_prefix: String) -> (s: RedisRevocationStore)
        ensures
            s.key_prefix == key_prefix,
            s.user_key_prefix == user_key_prefix,
    {
        RedisRevocationStore { key_prefix, user_key_prefix }
    }

    /// Key of the record of a revoked token.
    pub fn token_key(&self, jti: &TokenId) -> (k: String)
        ensures
            k@ == self.key_prefix@ + uuid_text(jti.0),
    {
        concat2(self.key_prefix.as_str(), jti.to_string().as_str())
    }

    /// Key of a user's set of revoked tokens.
    pub fn user_tokens_key(&self, user_id: &UserId) -> (k: String)
        ensures
            k@ == self.user_key_prefix@ + uuid_text(user_id.0),
    {
        concat2(self.user_key_prefix.as_str(), user_id.to_string().as_str())
    }

    /// Whole seconds from `now` until `expires_at`, and 0 when it has passed.
    pub fn calculate_ttl_at(&self, expires_at: i64, now: i64) -> (t: i64)
        ensures
            t == (if seconds_between(now, expires_at) > 0 { seconds_between(now, expires_at) } else { 0 }),
            t >= 0,
    {
        let d = whole_seconds_between(now, expires_at);
        if d > 0 { d } else { 0 }
    }

    /// Lifetime of a user's token set for a token living `ttl` more seconds.
    pub fn user_set_ttl(&self, ttl: i64) -> (t: i64)
        requires
            0 <= ttl <= i64::MAX - USER_SET_GRACE_SECONDS,
        ensures
            t == ttl + USER_SET_GRACE_SECONDS,
    {
        ttl + USER_SET_GRACE_SECONDS
    }
}


/// Microseconds in 24 hours.
pub const RECENT_REVOCATION_MICROS: i64 = 86_400_000_000;

/// Whether a record was made less than 24 whole hours before `now`.
pub open spec fn revoked_recently(t: RevokedToken, now: i64) -> bool {
    now - t.revoked_at < RECENT_REVOCATION_MICROS
}

/// How many records of `s` were made less than 24 hours before `now`.
pub open spec fn recent_count(s: Seq<RevokedToken>, now: i64) -> nat
    decreases s.len(),
{
    if s.len() == 0 {
        0
    } else {
        recent_count(s.drop_last(), now) + if revoked_recently(s.last(), now) { 1nat } else { 0nat }
    }
}

/// How many records of `s` have reason `r`.
pub open spec fn reason_count(s: Seq<RevokedToken>, r: RevocationReason) -> nat
    decreases s.len(),
{
    if s.len() == 0 {
        0
    } else {
        reason_count(s.drop_last(), r) + if s.last().reason == r { 1nat } else { 0nat }
    }
}

/// Whether `e` is the description of a reason present in `s` with its
/// number of records.
pub open spec fn tally_entry(e: (String, usize), s: Seq<RevokedToken>) -> bool {
    exists|r: RevocationReason| #[trigger] reason_description(r) == e.0@ && e.1 == reason_count(s, r) && reason_count(s, r) > 0
}

/// Whether `by` tallies the reasons of `s`: one entry per reason present,
/// with the reason's description and its number of records.
pub open spec fn tallies_reasons(by: Seq<(String, usize)>, s: Seq<RevokedToken>) -> bool {
    &&& forall|i: int, j: int| 0 <= i < j < by.len() ==> by[i].0@ != by[j].0@
    &&& forall|i: int| 0 <= i < by.len() ==> #[trigger] tally_entry(by[i], s)
    &&& forall|r: RevocationReason| reason_count(s, r) > 0 ==> exists|i: int|
        0 <= i < by.len() && #[trigger] by[i].0@ == reason_description(r)
}

/// Different reasons have different descriptions.
pub proof fn lemma_reason_descriptions_distinct(a: RevocationReason, b: RevocationReason)
    ensures
        reason_description(a) == reason_description(b) ==> a == b,
{
    reveal_strlit("User logged out");
    reveal_strlit("Password changed");
    reveal_strlit("User account deactivated");
    reveal_strlit("Security compromise");
    reveal_strlit("Administrative revocation");
    reveal_strlit("Token expired");
    reveal_strlit("Maximum rotations reached");
    reveal_strlit("Suspicious activity detected");
    let x = reason_description(a);
    let y = reason_description(b);
    if x == y && a != b {
        assert(x.len() == y.len());
        assert(x[0] == y[0]);
        assert(x[5] == y[5]);
    }
}

/// The counts of `s.push(t)` from those of `s`.
proof fn lemma_counts_push(s: Seq<RevokedToken>, t: RevokedToken, now: i64, r: RevocationReason)
    ensures
        recent_count(s.push(t), now) == recent_count(s, now) + if revoked_recently(t, now) { 1nat } else { 0nat },
        reason_count(s.push(t), r) == reason_count(s, r) + if t.reason == r { 1nat } else { 0nat },
{
    assert(s.push(t).drop_last() =~= s);
}

/// Counts never exceed the number of records.
proof fn lemma_counts_bounded(s: Seq<RevokedToken>, now: i64, r: RevocationReason)
    ensures
        recent_count(s, now) <= s.len(),
        reason_count(s, r) <= s.len(),
    decreases s.len(),
{
    if s.len() > 0 {
        lemma_counts_bounded(s.drop_last(), now, r);
    }
}

/// Statistics of the store from a sample of its records: `total_revoked`
/// keys in all, the records of the sample made less than 24 hours before
/// `now`, their reasons tallied by description (in order of first
/// appearance), and nothing to clean up (keys expire by themselves).
pub fn sampled_stats(total_revoked: usize, sample: &Vec<RevokedToken>, now: i64) -> (st: RevocationStats)
    ensures
        st.total_revoked == total_revoked,
        st.revoked_24h == recent_count(sample@, now),
        st.cleanable == 0,
        tallies_reasons(st.by_reason@, sample@),
{
    let mut recent: usize = 0;
    let mut tally: Vec<(RevocationReason, usize)> = Vec::new();
    let mut i: usize = 0;
    while i < sample.len()
        invariant
            i <= sample@.len(),
            recent == recent_count(sample@.subrange(0, i as int), now),
            forall|a: int, b: int| 0 <= a < b < tally@.len() ==> tally@[a].0 != tally@[b].0,
            forall|a: int| 0 <= a < tally@.len() ==> #[trigger] tally@[a].1 == reason_count(sample@.subrange(0, i as int), tally@[a].0)
                && tally@[a].1 > 0,
            forall|r: RevocationReason| reason_count(sample@.subrange(0, i as int), r) > 0 ==> exists|a: int|
                0 <= a < tally@.len() && #[trigger] tally@[a].0 == r,
        decreases sample@.len() - i,
    {
        let ghost prefix = sample@.subrange(0, i as int);
        let t = &sample[i];
        proof {
            assert(sample@.subrange(0, i + 1) =~= prefix.push(sample@[i as int]));
            lemma_counts_push(prefix, sample@[i as int], now, t.reason);
            lemma_counts_bounded(prefix, now, t.reason);
        }
        let age: i128 = (now as i128) - (t.revoked_at as i128);
        if age < RECENT_REVOCATION_MICROS as i128 {
            recent = recent + 1;
        }
        let mut pos: Option<usize> = None;
        let mut k: usize = 0;
        while k < tally.len()
            invariant
                k <= tally@.len(),
                match pos {
                    Some(p) => p < k && tally@[p as int].0 == t.reason,
                    None => forall|a: int| 0 <= a < k ==> tally@[a].0 != t.reason,
                },
            decreases tally@.len() - k,
        {
            if pos.is_none() && tally[k].0 == t.reason {
                pos = Some(k);
            }
            k += 1;
        }
        let ghost before = tally@;
        let ghost x = sample@[i as int];
        match pos {
            Some(p) => {
                let c = tally[p].1;
                proof {
                    assert(c == reason_count(prefix, x.reason));
                }
                tally.set(p, (t.reason, c + 1));
            },
            None => {
                proof {
                    if reason_count(prefix, x.reason) > 0 {
                        let a = choose|a: int| 0 <= a < before.len() && #[trigger] before[a].0 == x.reason;
                        assert(false);
                    }
                }
                tally.push((t.reason, 1));
            },
        }
        proof {
            let next = sample@.subrange(0, i + 1);
            assert forall|a: int, b: int| 0 <= a < b < tally@.len() implies tally@[a].0 != tally@[b].0 by {
                if b < before.len() {
                    assert(before[a].0 != before[b].0);
                }
            }
            assert forall|a: int| 0 <= a < tally@.len() implies #[trigger] tally@[a].1 == reason_count(next, tally@[a].0)
                && tally@[a].1 > 0 by {
                lemma_counts_push(prefix, x, now, tally@[a].0);
                if a < before.len() {
                    assert(before[a].1 == reason_count(prefix, before[a].0));
                }
            }
            assert forall|r: RevocationReason| reason_count(next, r) > 0 implies exists|a: int|
                0 <= a < tally@.len() && #[trigger] tally@[a].0 == r by {
                lemma_counts_push(prefix, x, now, r);
                if r == x.reason {
                    match pos {
                        Some(p) => { assert(tally@[p as int].0 == r); },
                        None => { assert(tally@[before.len() as int].0 == r); },
                    }
                } else {
                    let a = choose|a: int| 0 <= a < before.len() && #[trigger] before[a].0 == r;
                    assert(tally@[a].0 == r);
                }
            }
        }
        i += 1;
    }
    assert(sample@.subrange(0, sample@.len() as int) =~= sample@);
    let mut by_reason: Vec<(String, usize)> = Vec::new();
    let mut j: usize = 0;
    while j < tally.len()
        invariant
            j <= tally@.len(),
            by_reason@.len() == j,
            forall|a: int, b: int| 0 <= a < b < tally@.len() ==> tally@[a].0 != tally@[b].0,
            forall|a: int| 0 <= a < j ==> (#[trigger] by_reason@[a]).0@ == reason_description(tally@[a].0)
                && by_reason@[a].1 == tally@[a].1,
        decreases tally@.len() - j,
    {
        by_reason.push((String::from_str(tally[j].0.description()), tally[j].1));
        j += 1;
    }
    proof {
        assert forall|a: int, b: int| 0 <= a < b < by_reason@.len() implies by_reason@[a].0@ != by_reason@[b].0@ by {
            lemma_reason_descriptions_distinct(tally@[a].0, tally@[b].0);
        }
        assert forall|a: int| 0 <= a < by_reason@.len() implies #[trigger] tally_entry(by_reason@[a], sample@) by {
            let r = tally@[a].0;
            let e = by_reason@[a];
            assert(e.0@ =~= reason_description(r));
            assert(e.1 == reason_count(sample@, r));
            assert(reason_count(sample@, r) > 0);
        }
        assert forall|r: RevocationReason| reason_count(sample@, r) > 0 implies exists|a: int|
            0 <= a < by_reason@.len() && #[trigger] by_reason@[a].0@ == reason_description(r) by {
            let a = choose|a: int| 0 <= a < tally@.len() && #[trigger] tally@[a].0 == r;
            assert(by_reason@[a].0@ == reason_description(r));
        }
    }
    assert(tallies_reasons(by_reason@, sample@));
    RevocationStats { total_revoked, revoked_24h: recent, cleanable: 0, by_reason }
}

} // verus!
