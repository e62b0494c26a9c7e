//! Issued tokens: access and refresh token metadata, token pairs and
//! revocation records. Times are Unix times in microseconds.
use vstd::prelude::*;
use crate::ids::{UserId, DeviceId, TokenId, MICROS_PER_SECOND, now_micros};
use crate::domain::session::ttl_fits;

verus! {

/// Whole seconds from `from` to `to` (microseconds), rounded toward zero.
pub open spec fn seconds_between(from: i64, to: i64) -> int {
    let d = to - from;
    if d >= 0 { d / 1_000_000 } else { -((-d) / 1_000_000) }
}

/// Whole seconds from `from` to `to`, rounded toward zero.
pub fn whole_seconds_between(from: i64, to: i64) -> (s: i64)
    ensures
        s == seconds_between(from, to),
{
    let diff: i128 = (to as i128) - (from as i128);
    if diff >= 0 {
        let q: i128 = diff / 1_000_000i128;
        assert(q <= 20_000_000_000_000);
        q as i64
    } else {
        let q: i128 = (-diff) / 1_000_000i128;
        assert(q <= 20_000_000_000_000);
        -(q as i64)
    }
}

/// Metadata of an access token.
#[derive(Debug)]
pub struct AccessToken {
    pub jti: TokenId,
    pub user_id: UserId,
    pub device_id: DeviceId,
    pub issued_at: i64,
    pub expires_at: i64,
    pub nonce: String,
    pub algorithm: String,
    pub key_id: String,
}

impl AccessToken {
    /// Whether the token has expired at `now`.
    pub open spec fn spec_is_expired_at(&self, now: i64) -> bool {
        now > self.expires_at
    }

    /// Whether `now` lies between issue and expiry (both included).
    pub open spec fn spec_is_valid_at(&self, now: i64) -> bool {
        self.issued_at <= now <= self.expires_at
    }

    /// Whether the token has expired at `now`.
    pub fn is_expired_at(&self, now: i64) -> (b: bool)
        ensures
            b == (now > self.expires_at),
    {
        now > self.expires_at
    }

    /// Whether the token has expired by the clock: `is_expired_at` at the
    /// time read.
    pub fn is_expired(&self) -> (b: bool)
        ensures
            exists|now: i64| b == #[trigger] self.spec_is_expired_at(now),
    {
        let now = now_micros();
        let b = self.is_expired_at(now);
        assert(b == self.spec_is_expired_at(now));
        b
    }

    /// Whether `now` lies between issue and expiry (both included).
    pub fn is_valid_at(&self, now: i64) -> (b: bool)
        ensures
            b == (self.issued_at <= now <= self.expires_at),
    {
        now >= self.issued_at && now <= self.expires_at
    }

    /// Whether the current time lies between issue and expiry: `is_valid_at`
    /// at the time read.
    pub fn is_valid(&self) -> (b: bool)
        ensures
            exists|now: i64| b == #[trigger] self.spec_is_valid_at(now),
    {
        let now = now_micros();
        let b = self.is_valid_at(now);
        assert(b == self.spec_is_valid_at(now));
        b
    }

    /// Whole seconds from `now` until expiry (rounded toward zero).
    pub fn time_until_expiration_at(&self, now: i64) -> (s: i64)
        ensures
            s == seconds_between(now, self.expires_at),
    {
        whole_seconds_between(now, self.expires_at)
    }

    /// Whole seconds from the current time until expiry:
    /// `time_until_expiration_at` at the time read.
    pub fn time_until_expiration(&self) -> (s: i64)
        ensures
            exists|now: i64| s == #[trigger] seconds_between(now, self.expires_at),
    {
        let now = now_micros();
        let s = self.time_until_expiration_at(now);
        assert(s == seconds_between(now, self.expires_at));
        s
    }
}

/// Metadata of a refresh token.
#[derive(Debug)]
pub struct RefreshToken {
    pub jti: TokenId,
    pub user_id: UserId,
    pub device_id: DeviceId,
    pub issued_at: i64,
    pub expires_at: i64,
    /// The token this one was rotated from.
    pub parent_jti: Option<TokenId>,
    /// Number of rotations in the chain so far.
    pub generation: u32,
    pub max_rotations: u32,
    pub rotation_count: u32,
    pub algorithm: String,
    pub key_id: String,
}

impl RefreshToken {
    /// Whether the token has expired at `now`.
    pub open spec fn spec_is_expired_at(&self, now: i64) -> bool {
        now > self.expires_at
    }

    /// Whether the token can be rotated at `now`.
    pub open spec fn spec_can_rotate_at(&self, now: i64) -> bool {
        now <= self.expires_at && self.rotation_count < self.max_rotations
    }

    /// Whether `now` lies between issue and expiry (both included).
    pub open spec fn spec_is_valid_at(&self, now: i64) -> bool {
        self.issued_at <= now <= self.expires_at
    }

    /// Whether the token has expired at `now`.
    pub fn is_expired_at(&self, now: i64) -> (b: bool)
        ensures
            b == (now > self.expires_at),
    {
        now > self.expires_at
    }

    /// Whether the token has expired by the clock: `is_expired_at` at the
    /// time read.
    pub fn is_expired(&self) -> (b: bool)
        ensures
            exists|now: i64| b == #[trigger] self.spec_is_expired_at(now),
    {
        let now = now_micros();
        let b = self.is_expired_at(now);
        assert(b == self.spec_is_expired_at(now));
        b
    }

    /// Whether the token can be rotated at `now`: unexpired and under its
    /// rotation limit.
    pub fn can_rotate_at(&self, now: i64) -> (b: bool)
        ensures
            b == (now <= self.expires_at && self.rotation_count < self.max_rotations),
    {
        !self.is_expired_at(now) && self.rotation_count < self.max_rotations
    }

    /// Whether the token can be rotated now: `can_rotate_at` at the time read.
    pub fn can_rotate(&self) -> (b: bool)
        ensures
            exists|now: i64| b == #[trigger] self.spec_can_rotate_at(now),
    {
        let now = now_micros();
        let b = self.can_rotate_at(now);
        assert(b == self.spec_can_rotate_at(now));
        b
    }

    /// Whether `now` lies between issue and expiry (both included).
    pub fn is_valid_at(&self, now: i64) -> (b: bool)
        ensures
            b == (self.issued_at <= now <= self.expires_at),
    {
        now >= self.issued_at && now <= self.expires_at
    }

    /// Whether the current time lies between issue and expiry: `is_valid_at`
    /// at the time read.
    pub fn is_valid(&self) -> (b: bool)
        ensures
            exists|now: i64| b == #[trigger] self.spec_is_valid_at(now),
    {
        let now = now_micros();
        let b = self.is_valid_at(now);
        assert(b == self.spec_is_valid_at(now));
        b
    }

    /// The token replacing this one, issued now (by the clock), as
    /// `rotate_at`; `None` when its expiry cannot be represented.
    pub fn rotate(&self, new_jti: TokenId, ttl: i64) -> (r: Option<RefreshToken>)
        requires
            self.generation < u32::MAX,
            self.rotation_count < u32::MAX,
        ensures
            r matches Some(t) ==> (t.jti == new_jti && t.user_id == self.user_id && t.device_id == self.device_id
                && t.expires_at == t.issued_at + ttl * MICROS_PER_SECOND && t.parent_jti == Some(self.jti)
                && t.generation == self.generation + 1 && t.max_rotations == self.max_rotations
                && t.rotation_count == self.rotation_count + 1),
            r is None ==> exists|now: i64| !#[trigger] ttl_fits(now, ttl),
    {
        let now = crate::ids::now_micros();
        if !crate::domain::session::ttl_fits_at(now, ttl) {
            return None;
        }
        Some(self.rotate_at(new_jti, ttl, now))
    }

    /// The token that replaces this one at `now`: a new identifier, issued
    /// now and valid `ttl` seconds, with this token as parent and the
    /// generation and rotation count one higher.
    pub fn rotate_at(&self, new_jti: TokenId, ttl: i64, now: i64) -> (r: RefreshToken)
        requires
            ttl_fits(now, ttl),
            self.generation < u32::MAX,
            self.rotation_count < u32::MAX,
        ensures
            r.jti == new_jti,
            r.user_id == self.user_id,
            r.device_id == self.device_id,
            r.issued_at == now,
            r.expires_at == now + ttl * MICROS_PER_SECOND,
            r.parent_jti == Some(self.jti),
            r.generation == self.generation + 1,
            r.max_rotations == self.max_rotations,
            r.rotation_count == self.rotation_count + 1,
            r.algorithm == self.algorithm,
            r.key_id == self.key_id,
    {
        RefreshToken {
            jti: new_jti,
            user_id: self.user_id,
            device_id: self.device_id,
            issued_at: now,
            expires_at: now + ttl * MICROS_PER_SECOND,
            parent_jti: Some(self.jti),
            generation: self.generation + 1,
            max_rotations: self.max_rotations,
            rotation_count: self.rotation_count + 1,
            algorithm: self.algorithm.clone(),
            key_id: self.key_id.clone(),
        }
    }
}

/// Each rotation uses up one of the rotations a chain allows: a token
/// rotated from `t` has one fewer left, and a token with none left cannot
/// be rotated.
pub proof fn lemma_rotation_consumes_budget(t: RefreshToken, r: RefreshToken, now: i64)
    requires
        r.max_rotations == t.max_rotations,
        r.rotation_count == t.rotation_count + 1,
        t.rotation_count < t.max_rotations,
    ensures
        r.max_rotations - r.rotation_count == t.max_rotations - t.rotation_count - 1,
        r.rotation_count == r.max_rotations ==> !(now <= r.expires_at && r.rotation_count < r.max_rotations),
{
}

/// Tokens handed to a client.
#[derive(Debug)]
pub struct TokenPair {
    pub access_token: String,
    pub refresh_token: Option<String>,
    /// Always "Bearer".
    pub token_type: String,
    /// Seconds until the access token expires.
    pub expires_in: i64,
    pub access_token_metadata: AccessToken,
    pub refresh_token_metadata: Option<RefreshToken>,
}

impl TokenPair {
    /// A pair made at `now`.
    pub fn new_at(
        access_token: String,
        refresh_token: Option<String>,
        access_metadata: AccessToken,
        refresh_metadata: Option<RefreshToken>,
        now: i64,
    ) -> (p: TokenPair)
        ensures
            p.access_token == access_token,
            p.refresh_token == refresh_token,
            p.token_type@ == "Bearer"@,
            p.expires_in == seconds_between(now, access_metadata.expires_at),
            p.access_token_metadata == access_metadata,
            p.refresh_token_metadata == refresh_metadata,
    {
        let expires_in = access_metadata.time_until_expiration_at(now);
        TokenPair {
            access_token,
            refresh_token,
            token_type: String::from_str("Bearer"),
            expires_in,
            access_token_metadata: access_metadata,
            refresh_token_metadata: refresh_metadata,
        }
    }

    /// A pair made now.
    pub fn new(
        access_token: String,
        refresh_token: Option<String>,
        access_metadata: AccessToken,
        refresh_metadata: Option<RefreshToken>,
    ) -> (p: TokenPair)
        ensures
            p.access_token == access_token,
            p.refresh_token == refresh_token,
            p.token_type@ == "Bearer"@,
            p.access_token_metadata == access_metadata,
            p.refresh_token_metadata == refresh_metadata,
    {
        TokenPair::new_at(access_token, refresh_token, access_metadata, refresh_metadata, now_micros())
    }
}

/// Why a token was revoked.
#[derive(Debug, Clone, Copy, PartialEq, Eq, Structural)]
pub enum RevocationReason {
    UserLogout,
    AdminRevoke,
    Compromised,
    DeviceLost,
    SuspiciousActivity,
    PasswordChange,
    PermissionChange,
    Expired,
}

/// Record of a revoked token.
#[derive(Debug)]
pub struct TokenRevocation {
    pub jti: TokenId,
    pub user_id: UserId,
    pub revoked_at: i64,
    pub reason: RevocationReason,
    pub revoked_by: Option<UserId>,
    /// When the token would have expired.
    pub original_expires_at: i64,
}

impl TokenRevocation {
    /// Whether the record can be dropped at `now`: the token would have expired.
    pub fn can_cleanup_at(&self, now: i64) -> (b: bool)
        ensures
            b == (now > self.original_expires_at),
    {
        now > self.original_expires_at
    }

    /// Whether the record can be dropped at `now`.
    pub open spec fn spec_can_cleanup_at(&self, now: i64) -> bool {
        now > self.original_expires_at
    }

    /// Whether the record can be dropped now: `can_cleanup_at` at the time read.
    pub fn can_cleanup(&self) -> (b: bool)
        ensures
            exists|now: i64| b == #[trigger] self.spec_can_cleanup_at(now),
    {
        let now = now_micros();
        let b = self.can_cleanup_at(now);
        assert(b == self.spec_can_cleanup_at(now));
        b
    }
}

} // verus!
