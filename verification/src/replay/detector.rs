//! Replay detection: the age and expiry of a token, and the single use of
//! its nonce.
use vstd::prelude::*;
use crate::domain::claims::{AccessClaims, seconds_of};
use crate::domain::session::ttl_fits;
use crate::ids::{TokenId, parse_uuid, uuid_parse_value, MICROS_PER_SECOND};
use crate::replay::nonce_store::{InMemoryNonceStore, NonceStoreError, NonceStoreStats, EntryView, check_outcome, live_entries};
use crate::text::{concat2, concat3, int_to_text, int_text};

verus! {

/// Replay detection errors.
#[derive(Debug)]
pub enum ReplayError {
    ReplayDetected(String),
    TimestampTooOld(String),
    TimestampInFuture(String),
    NonceStore(NonceStoreError),
    InvalidTimestamp,
}

/// Replay detector configuration (all in seconds).
#[derive(Debug, Clone)]
pub struct ReplayDetectorConfig {
    /// Oldest accepted token age.
    pub max_token_age: i64,
    /// Tolerated clock difference.
    pub max_clock_skew: i64,
    /// How long a nonce is remembered.
    pub nonce_window: i64,
}

impl Default for ReplayDetectorConfig {
    fn default() -> (c: ReplayDetectorConfig)
        ensures
            c.max_token_age == 3600,
            c.max_clock_skew == 300,
            c.nonce_window == 7200,
    {
        ReplayDetectorConfig { max_token_age: 3600, max_clock_skew: 300, nonce_window: 7200 }
    }
}

/// Which timestamp check a token fails at `now` (seconds), if any: too old,
/// issued in the future beyond the skew, or expired.
pub enum TimestampFailure {
    TooOld,
    InFuture,
    Expired,
}

/// The first timestamp check failed by claims issued at `iat` and expiring
/// at `exp`, at time `now` (seconds).
pub open spec fn timestamp_failure(config: ReplayDetectorConfig, iat: i64, exp: i64, now: int) -> Option<TimestampFailure> {
    if now - iat > config.max_token_age {
        Some(TimestampFailure::TooOld)
    } else if iat > now + config.max_clock_skew {
        Some(TimestampFailure::InFuture)
    } else if now > exp {
        Some(TimestampFailure::Expired)
    } else {
        None
    }
}

/// The token age and the skewed time at `now` (seconds) stay within range.
pub open spec fn timestamps_fit(config: ReplayDetectorConfig, iat: i64, now: int) -> bool {
    &&& i64::MIN <= now - iat <= i64::MAX
    &&& i64::MIN <= now + config.max_clock_skew <= i64::MAX
}

/// Timestamps pass exactly when the token is not older than the maximum
/// age, not issued beyond the skew in the future, and not expired.
pub proof fn lemma_timestamps_pass_iff(config: ReplayDetectorConfig, iat: i64, exp: i64, now: int)
    ensures
        timestamp_failure(config, iat, exp, now) is None <==> (
            now - iat <= config.max_token_age && iat <= now + config.max_clock_skew && now <= exp),
{
}

/// An expired token fails the timestamp checks, whatever its issue time.
pub proof fn lemma_expired_refused(config: ReplayDetectorConfig, iat: i64, exp: i64, now: int)
    requires
        now > exp,
    ensures
        timestamp_failure(config, iat, exp, now) is Some,
{
}

/// Checks the timestamps of `claims` at `now` (seconds).
pub fn check_timestamp_at(config: &ReplayDetectorConfig, claims: &AccessClaims, now: i64) -> (r: Result<(), ReplayError>)
    requires
        timestamps_fit(*config, claims.standard.iat, now as int),
    ensures
        match timestamp_failure(*config, claims.standard.iat, claims.standard.exp, now as int) {
            None => r is Ok,
            Some(TimestampFailure::TooOld) => r matches Err(ReplayError::TimestampTooOld(m))
                && m@ == "Token issued "@ + int_text(now - claims.standard.iat) + " seconds ago"@,
            Some(TimestampFailure::InFuture) => r matches Err(ReplayError::TimestampInFuture(m))
                && m@ == "Token issued in the future"@,
            Some(TimestampFailure::Expired) => r matches Err(ReplayError::TimestampTooOld(m)) && m@ == "Token expired"@,
        },
        r is Ok ==> (now - claims.standard.iat <= config.max_token_age
            && claims.standard.iat <= now + config.max_clock_skew && now <= claims.standard.exp),
        now > claims.standard.exp ==> r is Err,
{
    let issued_at = claims.standard.iat;
    let expires_at = claims.standard.exp;
    let age = now - issued_at;
    if age > config.max_token_age {
        let text = int_to_text(age);
        return Err(ReplayError::TimestampTooOld(concat3("Token issued ", text.as_str(), " seconds ago")));
    }
    if issued_at > now + config.max_clock_skew {
        return Err(ReplayError::TimestampInFuture(String::from_str("Token issued in the future")));
    }
    if now > expires_at {
        return Err(ReplayError::TimestampTooOld(String::from_str("Token expired")));
    }
    Ok(())
}

/// Replay detector over an in-memory nonce store.
pub struct ReplayDetector {
    nonce_store: InMemoryNonceStore,
    config: ReplayDetectorConfig,
}

impl ReplayDetector {
    /// The configuration.
    pub closed spec fn settings(&self) -> ReplayDetectorConfig {
        self.config
    }

    /// The nonces remembered.
    pub closed spec fn entries(&self) -> Map<Seq<char>, EntryView> {
        self.nonce_store.entries()
    }

    /// A detector over `nonce_store`.
    pub fn new(nonce_store: InMemoryNonceStore, config: ReplayDetectorConfig) -> (d: ReplayDetector)
        ensures
            d.entries() == nonce_store.entries(),
            d.settings() == config,
    {
        ReplayDetector { nonce_store, config }
    }

    /// Checks that the nonce of `claims` was not used before, recording it
    /// for the nonce window (`now` in microseconds). A token identifier that
    /// is not a UUID gives `InvalidTimestamp`; a nonce seen before gives
    /// `ReplayDetected`.
    pub fn check_nonce_at(&mut self, claims: &AccessClaims, now: i64) -> (r: Result<(), ReplayError>)
        requires
            ttl_fits(now, old(self).settings().nonce_window),
        ensures
            final(self).settings() == old(self).settings(),
            match uuid_parse_value(claims.standard.jti@) {
                None => r matches Err(ReplayError::InvalidTimestamp) && final(self).entries() == old(self).entries(),
                Some(t) => match check_outcome(old(self).entries(), claims.nonce@, now) {
                    None => r is Ok && final(self).entries() == old(self).entries().insert(claims.nonce@,
                        (now, t, (now + old(self).settings().nonce_window * MICROS_PER_SECOND) as i64)),
                    Some(NonceStoreError::NonceAlreadyUsed) => r matches Err(ReplayError::ReplayDetected(m))
                        && m@ == "Nonce "@ + claims.nonce@ + " already used"@
                        && final(self).entries() == old(self).entries(),
                    Some(_) => r matches Err(ReplayError::NonceStore(NonceStoreError::NonceExpired))
                        && final(self).entries() == old(self).entries(),
                },
            },
    {
        let jti = match parse_uuid(claims.standard.jti.as_str()) {
            Some(v) => TokenId(v),
            None => {
                return Err(ReplayError::InvalidTimestamp);
            },
        };
        let window = self.config.nonce_window;
        match self.nonce_store.check_and_store_at(claims.nonce.as_str(), jti, window, now) {
            Ok(()) => Ok(()),
            Err(NonceStoreError::NonceAlreadyUsed) => {
                Err(ReplayError::ReplayDetected(concat3("Nonce ", claims.nonce.as_str(), " already used")))
            },
            Err(e) => Err(ReplayError::NonceStore(e)),
        }
    }

    /// Checks the timestamps, then the nonce, of `claims` at `now`
    /// (microseconds).
    pub fn check_token_at(&mut self, claims: &AccessClaims, now: i64) -> (r: Result<(), ReplayError>)
        requires
            ttl_fits(now, old(self).settings().nonce_window),
            timestamps_fit(old(self).settings(), claims.standard.iat, seconds_of(now as int)),
        ensures
            final(self).settings() == old(self).settings(),
            timestamp_failure(old(self).settings(), claims.standard.iat, claims.standard.exp, seconds_of(now as int)) is Some
                ==> r is Err && final(self).entries() == old(self).entries(),
            timestamp_failure(old(self).settings(), claims.standard.iat, claims.standard.exp, seconds_of(now as int)) is None
                && uuid_parse_value(claims.standard.jti@) is Some
                && check_outcome(old(self).entries(), claims.nonce@, now) == Some(NonceStoreError::NonceAlreadyUsed)
                ==> r matches Err(ReplayError::ReplayDetected(_)),
            r is Ok <==> (timestamp_failure(old(self).settings(), claims.standard.iat, claims.standard.exp, seconds_of(now as int)) is None
                && uuid_parse_value(claims.standard.jti@) is Some
                && check_outcome(old(self).entries(), claims.nonce@, now) is None),
            r is Ok ==> (uuid_parse_value(claims.standard.jti@) matches Some(t)
                && final(self).entries() == old(self).entries().insert(claims.nonce@,
                    (now, t, (now + old(self).settings().nonce_window * MICROS_PER_SECOND) as i64))),
            r is Err ==> final(self).entries() == old(self).entries(),
            r is Ok ==> (seconds_of(now as int) - claims.standard.iat <= old(self).settings().max_token_age
                && claims.standard.iat <= seconds_of(now as int) + old(self).settings().max_clock_skew
                && seconds_of(now as int) <= claims.standard.exp),
            seconds_of(now as int) > claims.standard.exp ==> (r is Err && final(self).entries() == old(self).entries()),
            r is Ok ==> !old(self).entries().contains_key(claims.nonce@)
                && final(self).entries().contains_key(claims.nonce@),
            old(self).entries().contains_key(claims.nonce@) ==> r is Err,
    {
        let secs = crate::domain::claims::micros_to_seconds(now);
        match check_timestamp_at(&self.config, claims, secs) {
            Err(e) => {
                return Err(e);
            },
            Ok(()) => {},
        }
        self.check_nonce_at(claims, now)
    }

    /// Drops the nonces expired at `now`; returns how many were dropped.
    pub fn cleanup_expired_nonces_at(&mut self, now: i64) -> (removed: usize)
        ensures
            final(self).entries() == live_entries(old(self).entries(), now),
            final(self).settings() == old(self).settings(),
            removed == old(self).entries().dom().len() - final(self).entries().dom().len(),
    {
        self.nonce_store.cleanup_expired_at(now)
    }

    /// Drops the nonces expired now, by the clock; see `cleanup_expired_nonces_at`.
    pub fn cleanup_expired_nonces(&mut self) -> (removed: usize)
        ensures
            exists|now: i64| final(self).entries() == #[trigger] live_entries(old(self).entries(), now),
            final(self).settings() == old(self).settings(),
            removed == old(self).entries().dom().len() - final(self).entries().dom().len(),
    {
        let now = crate::ids::now_micros();
        let removed = self.cleanup_expired_nonces_at(now);
        assert(self.entries() == live_entries(old(self).entries(), now));
        removed
    }

    /// Statistics of the nonce store now, by the clock; see `stats_at`.
    pub fn stats(&self) -> (s: NonceStoreStats)
        ensures
            s.total_nonces == self.entries().dom().len(),
    {
        self.stats_at(crate::ids::now_micros())
    }

    /// Statistics of the nonce store at `now`.
    pub fn stats_at(&self, now: i64) -> (s: NonceStoreStats)
        ensures
            s.total_nonces == self.entries().dom().len(),
            s.expired_nonces == self.entries().dom().filter(|k: Seq<char>| now > self.entries()[k].2).len(),
    {
        self.nonce_store.stats_at(now)
    }
}

} // verus!
