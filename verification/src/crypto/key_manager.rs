//! Signing keys: rotation policy, key lifecycle and rotation bookkeeping.
//! Times are Unix times in microseconds.
use vstd::prelude::*;
use crate::ids::{MICROS_PER_SECOND, now_micros};
use crate::keyed::{pairs_map, keys_unique, lemma_pairs_map, lemma_pairs_map_push, lemma_pairs_map_update};
use crate::text::str_eq;
use crate::crypto::kms::{KmsClientTrait, KmsError};

verus! {

/// Microseconds in one day.
pub const MICROS_PER_DAY: i64 = 86_400_000_000;

/// Largest magnitude of a number of days that this library adds to a time.
pub const MAX_DAYS: i64 = 50_000_000;

/// Key rotation policy.
#[derive(Debug, Clone)]
pub struct KeyRotationPolicy {
    /// Days between rotations.
    pub rotation_interval_days: i64,
    /// Days an old key stays valid after its rotation date.
    pub grace_period_days: i64,
    pub auto_rotate: bool,
}

impl Default for KeyRotationPolicy {
    /// Rotation every 90 days, 7 days of grace, manual rotation.
    fn default() -> (p: KeyRotationPolicy)
        ensures
            p.rotation_interval_days == 90,
            p.grace_period_days == 7,
            !p.auto_rotate,
    {
        KeyRotationPolicy { rotation_interval_days: 90, grace_period_days: 7, auto_rotate: false }
    }
}

/// The policy's periods, added to `now`, stay within range.
pub open spec fn policy_fits(policy: KeyRotationPolicy, now: i64) -> bool {
    &&& -MAX_DAYS <= policy.rotation_interval_days <= MAX_DAYS
    &&& -MAX_DAYS <= policy.grace_period_days <= MAX_DAYS
    &&& i64::MIN <= now + policy.rotation_interval_days * MICROS_PER_DAY <= i64::MAX
    &&& i64::MIN <= now + (policy.rotation_interval_days + policy.grace_period_days) * MICROS_PER_DAY <= i64::MAX
}

/// Metadata of a signing key.
#[derive(Debug)]
pub struct KeyMetadata {
    pub key_id: String,
    pub version: u32,
    pub created_at: i64,
    /// When the key should be rotated.
    pub rotate_at: i64,
    /// When the key stops being valid for verification.
    pub expires_at: i64,
    pub is_active: bool,
    pub algorithm: String,
}

/// Metadata of a key created at `now` under `policy`.
pub open spec fn fresh_key(key_id: Seq<char>, version: u32, policy: KeyRotationPolicy, now: i64, m: KeyMetadata) -> bool {
    &&& m.key_id@ == key_id
    &&& m.version == version
    &&& m.created_at == now
    &&& m.rotate_at == now + policy.rotation_interval_days * MICROS_PER_DAY
    &&& m.expires_at == now + (policy.rotation_interval_days + policy.grace_period_days) * MICROS_PER_DAY
    &&& m.is_active
    &&& m.algorithm@ == "RS256"@
}

impl KeyMetadata {
    /// Whether the key is due for rotation at `now`.
    pub fn should_rotate_at(&self, now: i64) -> (b: bool)
        ensures
            b == (now >= self.rotate_at),
    {
        now >= self.rotate_at
    }

    /// Whether the key has expired at `now`.
    pub fn is_expired_at(&self, now: i64) -> (b: bool)
        ensures
            b == (now >= self.expires_at),
    {
        now >= self.expires_at
    }

    /// Whether the key can still verify signatures at `now`.
    pub fn is_valid_for_verification_at(&self, now: i64) -> (b: bool)
        ensures
            b == (now < self.expires_at),
    {
        !self.is_expired_at(now)
    }

    /// Whether the key is due for rotation at `now`.
    pub open spec fn spec_should_rotate_at(&self, now: i64) -> bool {
        now >= self.rotate_at
    }

    /// Whether the key has expired at `now`.
    pub open spec fn spec_is_expired_at(&self, now: i64) -> bool {
        now >= self.expires_at
    }

    /// Whether the key is due for rotation now, by the clock:
    /// `should_rotate_at` at the time read.
    pub fn should_rotate(&self) -> (b: bool)
        ensures
            exists|now: i64| b == #[trigger] self.spec_should_rotate_at(now),
    {
        let now = now_micros();
        let b = self.should_rotate_at(now);
        assert(b == self.spec_should_rotate_at(now));
        b
    }

    /// Whether the key has expired now, by the clock: `is_expired_at` at the
    /// time read.
    pub fn is_expired(&self) -> (b: bool)
        ensures
            exists|now: i64| b == #[trigger] self.spec_is_expired_at(now),
    {
        let now = now_micros();
        let b = self.is_expired_at(now);
        assert(b == self.spec_is_expired_at(now));
        b
    }

    /// Whether the key can still verify signatures now, by the clock:
    /// `is_valid_for_verification_at` at the time read.
    pub fn is_valid_for_verification(&self) -> (b: bool)
        ensures
            exists|now: i64| b == !#[trigger] self.spec_is_expired_at(now),
    {
        let now = now_micros();
        let b = self.is_valid_for_verification_at(now);
        assert(b == !self.spec_is_expired_at(now));
        b
    }

    /// A copy of the metadata.
    pub fn copy(&self) -> (r: KeyMetadata)
        ensures
            r == *self,
    {
        KeyMetadata {
            key_id: self.key_id.clone(),
            version: self.version,
            created_at: self.created_at,
            rotate_at: self.rotate_at,
            expires_at: self.expires_at,
            is_active: self.is_active,
            algorithm: self.algorithm.clone(),
        }
    }
}

/// Key rotation statistics.
#[derive(Debug, Clone)]
pub struct KeyRotationStats {
    pub total_keys: usize,
    pub valid_keys: usize,
    pub expired_keys: usize,
    pub active_key_id: String,
    pub active_key_age_days: Option<i64>,
}

/// The keys of a sequence of metadata, each with its metadata.
pub open spec fn key_entries(s: Seq<KeyMetadata>) -> Seq<(Seq<char>, KeyMetadata)> {
    s.map_values(|k: KeyMetadata| (k.key_id@, k))
}

/// Number of keys of `s` still valid at `now`.
pub open spec fn count_valid(s: Seq<KeyMetadata>, now: i64) -> nat
    decreases s.len(),
{
    if s.len() == 0 {
        0
    } else {
        count_valid(s.drop_last(), now) + (if now < s.last().expires_at { 1nat } else { 0nat })
    }
}

/// Highest version among `s` (0 for none).
pub open spec fn max_version(s: Seq<KeyMetadata>) -> u32
    decreases s.len(),
{
    if s.len() == 0 {
        0
    } else {
        let m = max_version(s.drop_last());
        if s.last().version > m { s.last().version } else { m }
    }
}

/// `x` is one of the first `n` elements of `s`.
pub open spec fn occurs_before(x: KeyMetadata, s: Seq<KeyMetadata>, n: int) -> bool {
    exists|j: int| 0 <= j < n && #[trigger] s[j] == x
}

proof fn lemma_key_entries(s: Seq<KeyMetadata>)
    requires
        keys_unique(key_entries(s)),
    ensures
        pairs_map(key_entries(s)).dom().finite(),
        forall|i: int| 0 <= i < s.len() ==> #[trigger] pairs_map(key_entries(s))[s[i].key_id@] == s[i],
        forall|k: Seq<char>| pairs_map(key_entries(s)).contains_key(k) <==> exists|i: int| 0 <= i < s.len() && s[i].key_id@ == k,
{
    let e = key_entries(s);
    lemma_pairs_map(e);
    assert forall|i: int| 0 <= i < s.len() implies #[trigger] pairs_map(e)[s[i].key_id@] == s[i] by {
        assert(e[i] == (s[i].key_id@, s[i]));
    }
    assert forall|k: Seq<char>| pairs_map(e).contains_key(k) <==> exists|i: int| 0 <= i < s.len() && s[i].key_id@ == k by {
        if pairs_map(e).contains_key(k) {
            let i = choose|i: int| 0 <= i < e.len() && e[i].0 == k;
            assert(s[i].key_id@ == k);
        }
        if exists|i: int| 0 <= i < s.len() && s[i].key_id@ == k {
            let i = choose|i: int| 0 <= i < s.len() && s[i].key_id@ == k;
            assert(e[i].0 == k);
        }
    }
}

proof fn lemma_max_version(s: Seq<KeyMetadata>)
    ensures
        forall|i: int| 0 <= i < s.len() ==> s[i].version <= max_version(s),
    decreases s.len(),
{
    if s.len() > 0 {
        lemma_max_version(s.drop_last());
        assert forall|i: int| 0 <= i < s.len() implies s[i].version <= max_version(s) by {
            if i < s.len() - 1 {
                assert(s.drop_last()[i] == s[i]);
            }
        }
    }
}

proof fn lemma_count_valid_le(s: Seq<KeyMetadata>, now: i64)
    ensures
        count_valid(s, now) <= s.len(),
    decreases s.len(),
{
    if s.len() > 0 {
        lemma_count_valid_le(s.drop_last(), now);
    }
}

/// `after` is `before` rotated at `now` to the key `new_key_id`: it is the
/// active key, with the next version and fresh times; the previously active
/// key is deactivated; every other key stays as it was.
pub open spec fn rotation_done(before: KeyManager, after: KeyManager, new_key_id: Seq<char>, now: i64) -> bool {
    &&& after.active() == new_key_id
    &&& after.rotation_policy() == before.rotation_policy()
    &&& after.key_map().contains_key(new_key_id)
    &&& fresh_key(new_key_id, (max_version(before.key_list()) + 1) as u32, before.rotation_policy(), now,
        after.key_map()[new_key_id])
    &&& forall|k: Seq<char>| k != new_key_id ==> (#[trigger] after.key_map().contains_key(k) == before.key_map().contains_key(k))
    &&& forall|k: Seq<char>| k != new_key_id && k != before.active() && before.key_map().contains_key(k)
        ==> #[trigger] after.key_map()[k] == before.key_map()[k]
    &&& (before.active() != new_key_id && before.key_map().contains_key(before.active()) ==>
        after.key_map()[before.active()] == (KeyMetadata { is_active: false, ..before.key_map()[before.active()] }))
}

/// Key manager: the keys known, by key identifier, and the active key.
pub struct KeyManager {
    keys: Vec<KeyMetadata>,
    active_key_id: String,
    policy: KeyRotationPolicy,
}

impl KeyManager {
    #[verifier::type_invariant]
    spec fn ids_unique(&self) -> bool {
        keys_unique(key_entries(self.keys@))
    }

    /// The keys known, by identifier.
    pub closed spec fn key_map(&self) -> Map<Seq<char>, KeyMetadata> {
        pairs_map(key_entries(self.keys@))
    }

    /// The key used for signing.
    pub closed spec fn active(&self) -> Seq<char> {
        self.active_key_id@
    }

    /// The rotation policy.
    pub closed spec fn rotation_policy(&self) -> KeyRotationPolicy {
        self.policy
    }

    /// Every key known, in order of addition.
    pub closed spec fn key_list(&self) -> Seq<KeyMetadata> {
        self.keys@
    }

    /// A manager whose only key is `initial_key_id`, created at `now` as
    /// version 1 and active.
    pub fn new_at(initial_key_id: String, policy: KeyRotationPolicy, now: i64) -> (m: KeyManager)
        requires
            policy_fits(policy, now),
        ensures
            m.key_list().len() == 1,
            fresh_key(initial_key_id@, 1, policy, now, m.key_list()[0]),
            m.key_map().dom() == set![initial_key_id@],
            m.active() == initial_key_id@,
            m.rotation_policy() == policy,
    {
        let meta = KeyMetadata {
            key_id: initial_key_id.clone(),
            version: 1,
            created_at: now,
            rotate_at: now + policy.rotation_interval_days * MICROS_PER_DAY,
            expires_at: now + (policy.rotation_interval_days + policy.grace_period_days) * MICROS_PER_DAY,
            is_active: true,
            algorithm: String::from_str("RS256"),
        };
        let mut keys: Vec<KeyMetadata> = Vec::new();
        keys.push(meta);
        let m = KeyManager { keys, active_key_id: initial_key_id, policy };
        proof {
            assert(key_entries(m.keys@) =~= seq![(m.keys@[0].key_id@, m.keys@[0])]);
            assert(key_entries(m.keys@).drop_last() =~= Seq::<(Seq<char>, KeyMetadata)>::empty());
            assert(pairs_map(Seq::<(Seq<char>, KeyMetadata)>::empty()) == Map::<Seq<char>, KeyMetadata>::empty());
            assert(m.key_map() == Map::<Seq<char>, KeyMetadata>::empty().insert(initial_key_id@, m.keys@[0]));
            assert(m.key_map().dom() =~= set![initial_key_id@]);
        }
        m
    }

    /// The key used for signing.
    pub fn get_active_key_id(&self) -> (s: String)
        ensures
            s@ == self.active(),
    {
        self.active_key_id.clone()
    }

    fn find(&self, key_id: &str) -> (r: Option<usize>)
        ensures
            match r {
                Some(i) => i < self.key_list().len() && self.key_list()[i as int].key_id@ == key_id@
                    && self.key_map().contains_key(key_id@) && self.key_map()[key_id@] == self.key_list()[i as int],
                None => !self.key_map().contains_key(key_id@),
            },
    {
        proof { use_type_invariant(self); lemma_key_entries(self.keys@); }
        let mut i: usize = 0;
        while i < self.keys.len()
            invariant
                i <= self.keys@.len(),
                forall|j: int| 0 <= j < i ==> self.keys@[j].key_id@ != key_id@,
            decreases self.keys@.len() - i,
        {
            if str_eq(self.keys[i].key_id.as_str(), key_id) {
                proof { use_type_invariant(self); lemma_key_entries(self.keys@); }
                return Some(i);
            }
            i += 1;
        }
        None
    }

    /// Metadata of `key_id`, if the key is known.
    pub fn get_key_metadata(&self, key_id: &str) -> (r: Option<KeyMetadata>)
        ensures
            match r {
                Some(m) => self.key_map().contains_key(key_id@) && m == self.key_map()[key_id@],
                None => !self.key_map().contains_key(key_id@),
            },
    {
        match self.find(key_id) {
            Some(i) => Some(self.keys[i].copy()),
            None => None,
        }
    }

    /// Whether `key_id` is known and still valid for verification at `now`.
    pub fn is_valid_key_at(&self, key_id: &str, now: i64) -> (b: bool)
        ensures
            b == (self.key_map().contains_key(key_id@) && now < self.key_map()[key_id@].expires_at),
    {
        match self.find(key_id) {
            Some(i) => self.keys[i].is_valid_for_verification_at(now),
            None => false,
        }
    }

    /// The keys still valid for verification at `now`, in order.
    pub fn get_valid_keys_at(&self, now: i64) -> (r: Vec<KeyMetadata>)
        ensures
            r@ == self.key_list().filter(|k: KeyMetadata| now < k.expires_at),
            keys_unique(key_entries(r@)),
    {
        proof { use_type_invariant(self); }
        let ghost pred = |k: KeyMetadata| now < k.expires_at;
        let mut out: Vec<KeyMetadata> = Vec::new();
        let mut i: usize = 0;
        assert(self.keys@.subrange(0, 0) =~= Seq::<KeyMetadata>::empty());
        proof { reveal(Seq::filter); }
        while i < self.keys.len()
            invariant
                i <= self.keys@.len(),
                pred == (|k: KeyMetadata| now < k.expires_at),
                out@ == self.keys@.subrange(0, i as int).filter(pred),
                keys_unique(key_entries(self.keys@)),
                keys_unique(key_entries(out@)),
                forall|a: int| 0 <= a < out@.len() ==> occurs_before(#[trigger] out@[a], self.keys@, i as int),
            decreases self.keys@.len() - i,
        {
            proof {
                self.keys@.subrange(0, i as int).lemma_filter_push(self.keys@[i as int], pred);
                assert(self.keys@.subrange(0, i + 1) =~= self.keys@.subrange(0, i as int).push(self.keys@[i as int]));
            }
            if self.keys[i].is_valid_for_verification_at(now) {
                let ghost before = out@;
                let c = self.keys[i].copy();
                out.push(c);
                proof {
                    assert forall|a: int, b: int| 0 <= a < out@.len() && 0 <= b < out@.len() && a != b
                        implies key_entries(out@)[a].0 != key_entries(out@)[b].0 by {
                        assert(key_entries(out@)[a].0 == out@[a].key_id@);
                        assert(key_entries(out@)[b].0 == out@[b].key_id@);
                        if a < before.len() && b < before.len() {
                            assert(key_entries(before)[a].0 == before[a].key_id@);
                            assert(key_entries(before)[b].0 == before[b].key_id@);
                        } else if a < before.len() {
                            assert(occurs_before(before[a], self.keys@, i as int));
                            let j = choose|j: int| 0 <= j < i && #[trigger] self.keys@[j] == before[a];
                            assert(key_entries(self.keys@)[j].0 != key_entries(self.keys@)[i as int].0);
                        } else {
                            assert(occurs_before(before[b], self.keys@, i as int));
                            let j = choose|j: int| 0 <= j < i && #[trigger] self.keys@[j] == before[b];
                            assert(key_entries(self.keys@)[j].0 != key_entries(self.keys@)[i as int].0);
                        }
                    }
                    assert forall|a: int| 0 <= a < out@.len() implies occurs_before(#[trigger] out@[a], self.keys@, i + 1) by {
                        if a < before.len() {
                            assert(occurs_before(before[a], self.keys@, i as int));
                            let j = choose|j: int| 0 <= j < i && #[trigger] self.keys@[j] == before[a];
                            assert(out@[a] == self.keys@[j]);
                        } else {
                            assert(out@[a] == self.keys@[i as int]);
                        }
                    }
                }
            }
            i += 1;
        }
        assert(self.keys@.subrange(0, self.keys@.len() as int) =~= self.keys@);
        out
    }

    /// Whether the active key is due for rotation at `now`.
    pub fn check_rotation_at(&self, now: i64) -> (b: bool)
        ensures
            b == (self.key_map().contains_key(self.active()) && now >= self.key_map()[self.active()].rotate_at),
    {
        match self.find(self.active_key_id.as_str()) {
            Some(i) => self.keys[i].should_rotate_at(now),
            None => false,
        }
    }

    /// Makes `new_key_id` the active key at `now` (its existence in the key
    /// service checked beforehand): the previously active key is
    /// deactivated, and the new key gets the next version.
    pub fn rotate_key_at(&mut self, new_key_id: String, now: i64)
        requires
            policy_fits(old(self).rotation_policy(), now),
            max_version(old(self).key_list()) < u32::MAX,
        ensures
            rotation_done(*old(self), *final(self), new_key_id@, now),
    {
        proof {
            use_type_invariant(&*self);
            lemma_max_version(self.keys@);
        }
        let ghost old_map = self.key_map();
        let ghost old_active = self.active();
        let next_version = self.max_key_version() + 1;
        let mut keys: Vec<KeyMetadata> = Vec::new();
        std::mem::swap(&mut keys, &mut self.keys);
        let ghost e0 = key_entries(keys@);
        match self.find_in(&keys, self.active_key_id.as_str()) {
            Some(i) => {
                let mut cur = keys[i].copy();
                cur.is_active = false;
                proof { lemma_pairs_map_update(e0, i as int, cur); }
                keys.set(i, cur);
                assert(key_entries(keys@) =~= e0.update(i as int, (e0[i as int].0, cur)));
            },
            None => {},
        }
        let ghost e1 = key_entries(keys@);
        let meta = KeyMetadata {
            key_id: new_key_id.clone(),
            version: next_version,
            created_at: now,
            rotate_at: now + self.policy.rotation_interval_days * MICROS_PER_DAY,
            expires_at: now + (self.policy.rotation_interval_days + self.policy.grace_period_days) * MICROS_PER_DAY,
            is_active: true,
            algorithm: String::from_str("RS256"),
        };
        match self.find_in(&keys, new_key_id.as_str()) {
            Some(j) => {
                proof { lemma_pairs_map_update(e1, j as int, meta); }
                keys.set(j, meta);
                assert(key_entries(keys@) =~= e1.update(j as int, (e1[j as int].0, meta)));
            },
            None => {
                proof { lemma_pairs_map_push(e1, new_key_id@, meta); }
                keys.push(meta);
                assert(key_entries(keys@) =~= e1.push((new_key_id@, meta)));
            },
        }
        self.keys = keys;
        self.active_key_id = new_key_id;
    }

    /// Highest version of the keys known (0 for none).
    fn max_key_version(&self) -> (v: u32)
        ensures
            v == max_version(self.key_list()),
    {
        let mut best: u32 = 0;
        let mut i: usize = 0;
        assert(self.keys@.subrange(0, 0) =~= Seq::<KeyMetadata>::empty());
        while i < self.keys.len()
            invariant
                i <= self.keys@.len(),
                best == max_version(self.keys@.subrange(0, i as int)),
            decreases self.keys@.len() - i,
        {
            assert(self.keys@.subrange(0, i + 1).drop_last() =~= self.keys@.subrange(0, i as int));
            if self.keys[i].version > best {
                best = self.keys[i].version;
            }
            i += 1;
        }
        assert(self.keys@.subrange(0, self.keys@.len() as int) =~= self.keys@);
        best
    }

    /// Index of `key_id` in `keys`, whose identifiers are unique.
    fn find_in(&self, keys: &Vec<KeyMetadata>, key_id: &str) -> (r: Option<usize>)
        requires
            keys_unique(key_entries(keys@)),
        ensures
            match r {
                Some(i) => i < keys@.len() && keys@[i as int].key_id@ == key_id@
                    && pairs_map(key_entries(keys@)).contains_key(key_id@)
                    && pairs_map(key_entries(keys@))[key_id@] == keys@[i as int],
                None => !pairs_map(key_entries(keys@)).contains_key(key_id@),
            },
    {
        proof { lemma_pairs_map(key_entries(keys@)); }
        let mut i: usize = 0;
        while i < keys.len()
            invariant
                i <= keys@.len(),
                keys_unique(key_entries(keys@)),
                forall|j: int| 0 <= j < i ==> keys@[j].key_id@ != key_id@,
            decreases keys@.len() - i,
        {
            if str_eq(keys[i].key_id.as_str(), key_id) {
                proof {
                    lemma_key_entries(keys@);
                    assert(key_entries(keys@)[i as int].0 == key_id@);
                }
                return Some(i);
            }
            i += 1;
        }
        proof {
            lemma_pairs_map(key_entries(keys@));
            assert forall|j: int| 0 <= j < key_entries(keys@).len() implies key_entries(keys@)[j].0 != key_id@ by {
                assert(key_entries(keys@)[j].0 == keys@[j].key_id@);
            }
        }
        None
    }

    /// Rotates at `now` to `new_key_id` according to whether the key service
    /// holds it (`held`, its answer): an error of the service is returned as
    /// it is, a key it does not hold gives `KeyNotFound` (with the key's
    /// name), either leaving the manager unchanged; a held key is rotated to.
    pub fn rotate_key_if_held(&mut self, held: Result<bool, KmsError>, new_key_id: String, now: i64) -> (r: Result<(), KmsError>)
        requires
            policy_fits(old(self).rotation_policy(), now),
            max_version(old(self).key_list()) < u32::MAX,
        ensures
            match held {
                Err(e) => r == Err::<(), KmsError>(e) && *final(self) == *old(self),
                Ok(false) => r == Err::<(), KmsError>(KmsError::KeyNotFound(new_key_id)) && *final(self) == *old(self),
                Ok(true) => r is Ok && rotation_done(*old(self), *final(self), new_key_id@, now),
            },
    {
        match held {
            Err(e) => Err(e),
            Ok(false) => Err(KmsError::KeyNotFound(new_key_id)),
            Ok(true) => {
                self.rotate_key_at(new_key_id, now);
                Ok(())
            },
        }
    }

    /// Rotates at `now` to `new_key_id` once the key service `client` says
    /// it holds that key (see `rotate_key_if_held`, which decides on its answer).
    pub fn rotate_key<C: KmsClientTrait>(&mut self, client: &C, new_key_id: String, now: i64) -> (r: Result<(), KmsError>)
        requires
            policy_fits(old(self).rotation_policy(), now),
            max_version(old(self).key_list()) < u32::MAX,
        ensures
            r is Ok ==> rotation_done(*old(self), *final(self), new_key_id@, now),
            r is Err ==> *final(self) == *old(self),
    {
        let held = client.key_exists(new_key_id.as_str());
        self.rotate_key_if_held(held, new_key_id, now)
    }

    /// Removes the keys expired at `now`; returns how many were removed.
    pub fn cleanup_expired_keys_at(&mut self, now: i64) -> (removed: usize)
        ensures
            final(self).key_list() == old(self).key_list().filter(|k: KeyMetadata| now < k.expires_at),
            final(self).active() == old(self).active(),
            final(self).rotation_policy() == old(self).rotation_policy(),
            removed == old(self).key_list().len() - final(self).key_list().len(),
    {
        proof { use_type_invariant(&*self); }
        let kept = self.get_valid_keys_at(now);
        let ghost pred = |k: KeyMetadata| now < k.expires_at;
        proof {
            self.keys@.lemma_filter_len(pred);
        }
        let removed = self.keys.len() - kept.len();
        self.keys = kept;
        removed
    }

    /// Statistics at `now`: the number of keys, of valid and of expired
    /// keys, the active key and its age in whole days.
    pub fn get_stats_at(&self, now: i64) -> (s: KeyRotationStats)
        ensures
            s.total_keys == self.key_list().len(),
            s.valid_keys == count_valid(self.key_list(), now),
            s.expired_keys == self.key_list().len() - count_valid(self.key_list(), now),
            s.active_key_id@ == self.active(),
            match s.active_key_age_days {
                Some(d) => self.key_map().contains_key(self.active())
                    && d == days_between(self.key_map()[self.active()].created_at, now),
                None => !self.key_map().contains_key(self.active()),
            },
    {
        let mut valid: usize = 0;
        let mut i: usize = 0;
        assert(self.keys@.subrange(0, 0) =~= Seq::<KeyMetadata>::empty());
        while i < self.keys.len()
            invariant
                i <= self.keys@.len(),
                valid == count_valid(self.keys@.subrange(0, i as int), now),
            decreases self.keys@.len() - i,
        {
            assert(self.keys@.subrange(0, i + 1).drop_last() =~= self.keys@.subrange(0, i as int));
            proof { lemma_count_valid_le(self.keys@.subrange(0, i as int), now); }
            if self.keys[i].is_valid_for_verification_at(now) {
                valid = valid + 1;
            }
            i += 1;
        }
        assert(self.keys@.subrange(0, self.keys@.len() as int) =~= self.keys@);
        proof { lemma_count_valid_le(self.keys@, now); }
        let age = match self.find(self.active_key_id.as_str()) {
            Some(j) => Some(whole_days_between(self.keys[j].created_at, now)),
            None => None,
        };
        KeyRotationStats {
            total_keys: self.keys.len(),
            valid_keys: valid,
            expired_keys: self.keys.len() - valid,
            active_key_id: self.active_key_id.clone(),
            active_key_age_days: age,
        }
    }
}

/// The keys of `list` still valid for verification at `now`, in order.
pub open spec fn valid_keys_at(list: Seq<KeyMetadata>, now: i64) -> Seq<KeyMetadata> {
    list.filter(|k: KeyMetadata| now < k.expires_at)
}

impl KeyManager {
    /// Whether `key_id` is known and still valid for verification at `now`.
    pub open spec fn spec_is_valid_key_at(&self, key_id: Seq<char>, now: i64) -> bool {
        self.key_map().contains_key(key_id) && now < self.key_map()[key_id].expires_at
    }

    /// Whether the active key is known and due for rotation at `now`.
    pub open spec fn spec_rotation_due_at(&self, now: i64) -> bool {
        self.key_map().contains_key(self.active()) && now >= self.key_map()[self.active()].rotate_at
    }

    /// The keys still valid for verification now, by the clock; see
    /// `get_valid_keys_at`.
    pub fn get_valid_keys(&self) -> (r: Vec<KeyMetadata>)
        ensures
            exists|now: i64| r@ == #[trigger] valid_keys_at(self.key_list(), now),
    {
        let now = now_micros();
        let r = self.get_valid_keys_at(now);
        assert(r@ == valid_keys_at(self.key_list(), now));
        r
    }

    /// Whether `key_id` is known and still valid now, by the clock:
    /// `is_valid_key_at` at the time read.
    pub fn is_valid_key(&self, key_id: &str) -> (b: bool)
        ensures
            exists|now: i64| b == #[trigger] self.spec_is_valid_key_at(key_id@, now),
    {
        let now = now_micros();
        let b = self.is_valid_key_at(key_id, now);
        assert(b == self.spec_is_valid_key_at(key_id@, now));
        b
    }

    /// Whether the active key is due for rotation now, by the clock:
    /// `check_rotation_at` at the time read.
    pub fn check_rotation(&self) -> (b: bool)
        ensures
            exists|now: i64| b == #[trigger] self.spec_rotation_due_at(now),
    {
        let now = now_micros();
        let b = self.check_rotation_at(now);
        assert(b == self.spec_rotation_due_at(now));
        b
    }

    /// Removes the keys expired now, by the clock; see `cleanup_expired_keys_at`.
    pub fn cleanup_expired_keys(&mut self) -> (removed: usize)
        ensures
            exists|now: i64| final(self).key_list() == #[trigger] valid_keys_at(old(self).key_list(), now),
            final(self).active() == old(self).active(),
            final(self).rotation_policy() == old(self).rotation_policy(),
            removed == old(self).key_list().len() - final(self).key_list().len(),
    {
        let now = now_micros();
        let removed = self.cleanup_expired_keys_at(now);
        assert(self.key_list() == valid_keys_at(old(self).key_list(), now));
        removed
    }

    /// Statistics now, by the clock; see `get_stats_at`.
    pub fn get_stats(&self) -> (s: KeyRotationStats)
        ensures
            s.total_keys == self.key_list().len(),
            s.valid_keys + s.expired_keys == s.total_keys,
            s.active_key_id@ == self.active(),
            s.active_key_age_days is Some <==> self.key_map().contains_key(self.active()),
    {
        self.get_stats_at(now_micros())
    }
}

/// Whole days from `from` to `to` (microseconds), rounded toward zero.
pub open spec fn days_between(from: i64, to: i64) -> int {
    let d = to - from;
    if d >= 0 { d / (MICROS_PER_DAY as int) } else { -((-d) / (MICROS_PER_DAY as int)) }
}

/// Whole days from `from` to `to`, rounded toward zero.
pub fn whole_days_between(from: i64, to: i64) -> (d: i64)
    ensures
        d == days_between(from, to),
{
    let diff: i128 = (to as i128) - (from as i128);
    if diff >= 0 {
        let q: i128 = diff / 86_400_000_000i128;
        assert(q <= 500_000_000);
        q as i64
    } else {
        let q: i128 = (-diff) / 86_400_000_000i128;
        assert(q <= 500_000_000);
        -(q as i64)
    }
}

} // verus!
