//! Sessions, their states and device fingerprints.
use vstd::prelude::*;
use crate::ids::{UserId, DeviceId, SessionId, TokenId, IpAddress, MICROS_PER_SECOND, MAX_TTL_SECONDS};
use crate::text::{nat_hex_digits, u64_to_hex};
use std::collections::hash_map::DefaultHasher;
use std::hash::Hasher;
use vstd::std_specs::hash::DefaultHasherAdditionalSpecFns;
use vstd::string::StringSliceAdditionalSpecFns;

verus! {

/// Device fingerprint for device identification and tracking.
#[derive(Debug, Clone)]
pub struct DeviceFingerprint {
    pub user_agent: String,
    pub screen_resolution: Option<String>,
    pub timezone_offset: Option<i32>,
    pub language: Option<String>,
    pub platform: Option<String>,
    pub canvas_hash: Option<String>,
    pub webgl_renderer: Option<String>,
    pub fonts_hash: Option<String>,
    pub hardware_concurrency: Option<u32>,
    pub device_memory: Option<u32>,
    pub custom_attributes: Vec<(String, String)>,
}

/// Optional strings compared by their characters.
pub open spec fn opt_str_view(o: Option<String>) -> Option<Seq<char>> {
    match o {
        Some(s) => Some(s@),
        None => None,
    }
}

fn opt_string_eq(a: &Option<String>, b: &Option<String>) -> (r: bool)
    ensures
        r == (opt_str_view(*a) == opt_str_view(*b)),
{
    match (a, b) {
        (Some(x), Some(y)) => *x == *y,
        (None, None) => true,
        _ => false,
    }
}

/// Total weight of the attributes compared by fuzzy fingerprint matching.
pub const FINGERPRINT_TOTAL_WEIGHT: u32 = 11;

/// Calls `i32::to_ne_bytes`: the four bytes of `v` in the machine's byte
/// order (which order that is, is left unsaid).
#[verifier::external_body]
fn i32_ne_bytes(v: i32) -> (r: [u8; 4]) {
    v.to_ne_bytes()
}

/// What hashing a text feeds the hasher: its UTF-8 bytes, then a 0xff byte.
pub open spec fn text_writes(t: Seq<char>) -> Seq<Seq<u8>> {
    seq![vstd::utf8::encode_utf8(t), seq![0xffu8]]
}

/// What hashing an optional text feeds the hasher (nothing when absent).
pub open spec fn opt_text_writes(t: Option<String>) -> Seq<Seq<u8>> {
    match t {
        Some(s) => text_writes(s@),
        None => Seq::empty(),
    }
}

/// What hashing a fingerprint feeds the hasher, in order: the user agent,
/// then the screen resolution, time-zone offset (its four bytes `tz`, in
/// the machine's byte order), language, platform and canvas hash when present.
pub open spec fn fingerprint_writes(f: DeviceFingerprint, tz: Seq<u8>) -> Seq<Seq<u8>> {
    text_writes(f.user_agent@) + opt_text_writes(f.screen_resolution)
        + (if f.timezone_offset is Some { seq![tz] } else { Seq::empty() })
        + opt_text_writes(f.language) + opt_text_writes(f.platform) + opt_text_writes(f.canvas_hash)
}

/// Feeds a text to the hasher as `str`'s `Hash` does.
fn hash_text(h: &mut DefaultHasher, t: &str)
    ensures
        final(h)@ == old(h)@ + text_writes(t@),
{
    h.write(t.as_bytes());
    let end: [u8; 1] = [0xff];
    h.write(end.as_slice());
    assert(end@ =~= seq![0xffu8]);
    assert(old(h)@.push(t.spec_bytes()).push(end@) =~= old(h)@ + text_writes(t@));
}

/// Feeds an optional text to the hasher.
fn hash_opt_text(h: &mut DefaultHasher, t: &Option<String>)
    ensures
        final(h)@ == old(h)@ + opt_text_writes(*t),
{
    match t {
        Some(s) => hash_text(h, s.as_str()),
        None => {
            assert(old(h)@ + Seq::<Seq<u8>>::empty() =~= old(h)@);
        },
    }
}

impl DeviceFingerprint {
    /// The hexadecimal text (lower case, no leading zeros) of the standard
    /// library's default hash of the fingerprint's user agent, screen
    /// resolution, time-zone offset, language, platform and canvas hash.
    /// The offset enters as its bytes in the machine's order, so where it is
    /// present the result is stated for some four bytes.
    pub fn hash(&self) -> (r: String)
        ensures
            exists|tz: Seq<u8>| tz.len() == 4 && r@ == nat_hex_digits(
                DefaultHasher::spec_finish(#[trigger] fingerprint_writes(*self, tz)) as nat),
    {
        let mut h = DefaultHasher::new();
        hash_text(&mut h, self.user_agent.as_str());
        hash_opt_text(&mut h, &self.screen_resolution);
        let ghost mut tz: Seq<u8> = seq![0u8, 0u8, 0u8, 0u8];
        match self.timezone_offset {
            Some(offset) => {
                let b = i32_ne_bytes(offset);
                h.write(b.as_slice());
                proof { tz = b@; }
            },
            None => {},
        }
        hash_opt_text(&mut h, &self.language);
        hash_opt_text(&mut h, &self.platform);
        hash_opt_text(&mut h, &self.canvas_hash);
        proof {
            assert(h@ =~= fingerprint_writes(*self, tz));
        }
        u64_to_hex(h.finish())
    }

    /// Weighted agreement with another fingerprint: user agent 3, screen 2,
    /// platform 2, canvas hash 3 (only when present), timezone 1.
    pub open spec fn spec_match_points(self, other: DeviceFingerprint) -> u32 {
        ((if self.user_agent@ == other.user_agent@ { 3u32 } else { 0u32 })
        + (if opt_str_view(self.screen_resolution) == opt_str_view(other.screen_resolution) { 2u32 } else { 0u32 })
        + (if opt_str_view(self.platform) == opt_str_view(other.platform) { 2u32 } else { 0u32 })
        + (if self.canvas_hash is Some && opt_str_view(self.canvas_hash) == opt_str_view(other.canvas_hash) { 3u32 } else { 0u32 })
        + (if self.timezone_offset == other.timezone_offset { 1u32 } else { 0u32 })) as u32
    }

    /// Points of agreement with `other`, out of `FINGERPRINT_TOTAL_WEIGHT`; two
    /// fingerprints match at a threshold when the share of points reaches it.
    pub fn match_points(&self, other: &DeviceFingerprint) -> (p: u32)
        ensures
            p == self.spec_match_points(*other),
            p <= FINGERPRINT_TOTAL_WEIGHT,
    {
        let mut m: u32 = 0;
        if self.user_agent == other.user_agent {
            m = m + 3;
        }
        if opt_string_eq(&self.screen_resolution, &other.screen_resolution) {
            m = m + 2;
        }
        if opt_string_eq(&self.platform, &other.platform) {
            m = m + 2;
        }
        if self.canvas_hash.is_some() && opt_string_eq(&self.canvas_hash, &other.canvas_hash) {
            m = m + 3;
        }
        if self.timezone_offset == other.timezone_offset {
            m = m + 1;
        }
        m
    }
}

/// Session state.
#[derive(Debug, Clone, Copy, PartialEq, Eq, Structural)]
pub enum SessionState {
    Active,
    PendingMfa,
    PendingWebAuthn,
    PendingRiskCheck,
    RevokedByUser,
    RevokedByAdmin,
    Expired,
    Suspicious,
}

impl SessionState {
    pub open spec fn spec_is_pending(self) -> bool {
        self is PendingMfa || self is PendingWebAuthn || self is PendingRiskCheck
    }

    pub open spec fn spec_is_terminated(self) -> bool {
        self is RevokedByUser || self is RevokedByAdmin || self is Expired || self is Suspicious
    }

    /// Whether the session is usable.
    pub fn is_active(&self) -> (b: bool)
        ensures
            b == (*self is Active),
    {
        match self {
            SessionState::Active => true,
            _ => false,
        }
    }

    /// Whether the session waits for a verification step.
    pub fn is_pending(&self) -> (b: bool)
        ensures
            b == self.spec_is_pending(),
    {
        match self {
            SessionState::PendingMfa | SessionState::PendingWebAuthn | SessionState::PendingRiskCheck => true,
            _ => false,
        }
    }

    /// Whether the session was terminated.
    pub fn is_terminated(&self) -> (b: bool)
        ensures
            b == self.spec_is_terminated(),
    {
        match self {
            SessionState::RevokedByUser | SessionState::RevokedByAdmin
            | SessionState::Expired | SessionState::Suspicious => true,
            _ => false,
        }
    }
}

/// Every state is exactly one of active, pending or terminated.
pub proof fn lemma_session_state_partition(s: SessionState)
    ensures
        (s is Active) as int + s.spec_is_pending() as int + s.spec_is_terminated() as int == 1,
{
}

/// Number of failed authentication attempts after which a session is suspicious.
pub const MAX_FAILED_AUTH_ATTEMPTS: u32 = 3;

/// Session object. Times are Unix timestamps in microseconds. The session's
/// risk score is kept by its owner; `apply_risk_assessment` takes whether it is high.
#[derive(Debug, Clone)]
pub struct Session {
    pub id: SessionId,
    pub user_id: UserId,
    pub device_id: DeviceId,
    pub state: SessionState,
    pub created_at: i64,
    pub last_accessed_at: i64,
    pub expires_at: i64,
    pub ip_address: IpAddress,
    pub device_fingerprint: DeviceFingerprint,
    pub current_access_token: Option<TokenId>,
    pub current_refresh_token: Option<TokenId>,
    pub mfa_verified: bool,
    pub webauthn_verified: bool,
    pub tokens_issued: u32,
    pub failed_auth_attempts: u32,
    pub metadata: Vec<(String, String)>,
}

/// A time `ttl` seconds after `now` (microseconds) fits in an `i64`.
pub open spec fn ttl_fits(now: i64, ttl: i64) -> bool {
    -MAX_TTL_SECONDS <= ttl <= MAX_TTL_SECONDS
        && i64::MIN <= now + ttl * MICROS_PER_SECOND <= i64::MAX
}

/// Whether an expiry `ttl` seconds after `now` can be represented (see `ttl_fits`).
pub fn ttl_fits_at(now: i64, ttl: i64) -> (b: bool)
    ensures
        b == ttl_fits(now, ttl),
{
    if ttl < -MAX_TTL_SECONDS || ttl > MAX_TTL_SECONDS {
        return false;
    }
    let delta = ttl * MICROS_PER_SECOND;
    !((delta > 0 && now > i64::MAX - delta) || (delta < 0 && now < i64::MIN - delta))
}

impl Session {
    /// A new active session created at time `now`, expiring `ttl` seconds later.
    pub fn new_at(
        id: SessionId,
        user_id: UserId,
        device_id: DeviceId,
        ip_address: IpAddress,
        fingerprint: DeviceFingerprint,
        ttl: i64,
        now: i64,
    ) -> (s: Self)
        requires
            ttl_fits(now, ttl),
        ensures
            s.id == id,
            s.user_id == user_id,
            s.device_id == device_id,
            s.state == SessionState::Active,
            s.created_at == now,
            s.last_accessed_at == now,
            s.expires_at == now + ttl * MICROS_PER_SECOND,
            s.ip_address == ip_address,
            s.device_fingerprint == fingerprint,
            s.current_access_token is None,
            s.current_refresh_token is None,
            !s.mfa_verified,
            !s.webauthn_verified,
            s.tokens_issued == 0,
            s.failed_auth_attempts == 0,
            s.metadata@.len() == 0,
    {
        Session {
            id,
            user_id,
            device_id,
            state: SessionState::Active,
            created_at: now,
            last_accessed_at: now,
            expires_at: now + ttl * MICROS_PER_SECOND,
            ip_address,
            device_fingerprint: fingerprint,
            current_access_token: None,
            current_refresh_token: None,
            mfa_verified: false,
            webauthn_verified: false,
            tokens_issued: 0,
            failed_auth_attempts: 0,
            metadata: Vec::new(),
        }
    }

    /// A new active session for the current time with a fresh identifier.
    pub fn new(
        user_id: UserId,
        device_id: DeviceId,
        ip_address: IpAddress,
        fingerprint: DeviceFingerprint,
        ttl: i64,
    ) -> (s: Option<Self>)
        ensures
            s matches Some(s) ==> s.user_id == user_id && s.device_id == device_id
                && s.state == SessionState::Active && s.ip_address == ip_address
                && s.expires_at == s.created_at + ttl * MICROS_PER_SECOND
                && s.last_accessed_at == s.created_at,
            s is None ==> !(-MAX_TTL_SECONDS <= ttl <= MAX_TTL_SECONDS) || (exists|now: i64| !ttl_fits(now, ttl)),
    {
        let now = crate::ids::now_micros();
        if ttl < -MAX_TTL_SECONDS || ttl > MAX_TTL_SECONDS {
            return None;
        }
        let delta = ttl * MICROS_PER_SECOND;
        if (delta > 0 && now > i64::MAX - delta) || (delta < 0 && now < i64::MIN - delta) {
            assert(!ttl_fits(now, ttl));
            return None;
        }
        Some(Session::new_at(SessionId::new(), user_id, device_id, ip_address, fingerprint, ttl, now))
    }

    pub open spec fn spec_is_expired_at(&self, now: i64) -> bool {
        now > self.expires_at
    }

    /// Whether the session is active and not expired at time `now`.
    pub open spec fn spec_is_valid_at(&self, now: i64) -> bool {
        self.state is Active && !self.spec_is_expired_at(now)
    }

    /// Whether the session is past its absolute expiry at time `now`.
    pub fn is_expired_at(&self, now: i64) -> (b: bool)
        ensures
            b == self.spec_is_expired_at(now),
    {
        now > self.expires_at
    }

    /// Whether the session is active and not expired at time `now`.
    pub fn is_valid_at(&self, now: i64) -> (b: bool)
        ensures
            b == (self.state is Active && !self.spec_is_expired_at(now)),
    {
        self.state.is_active() && !self.is_expired_at(now)
    }

    /// Whether the session is past its absolute expiry now, by the clock:
    /// `is_expired_at` at the time read.
    pub fn is_expired(&self) -> (b: bool)
        ensures
            exists|now: i64| b == #[trigger] self.spec_is_expired_at(now),
    {
        let now = crate::ids::now_micros();
        let b = self.is_expired_at(now);
        assert(b == self.spec_is_expired_at(now));
        b
    }

    /// Whether the session is active and not expired now: `is_valid_at` at
    /// the time read.
    pub fn is_valid(&self) -> (b: bool)
        ensures
            exists|now: i64| b == #[trigger] self.spec_is_valid_at(now),
    {
        let now = crate::ids::now_micros();
        let b = self.is_valid_at(now);
        assert(b == self.spec_is_valid_at(now));
        b
    }

    /// Records an access at time `now`.
    pub fn touch_at(&mut self, now: i64)
        ensures
            final(self).last_accessed_at == now,
            *final(self) == (Session { last_accessed_at: now, ..*old(self) }),
    {
        self.last_accessed_at = now;
    }

    /// Records an access now: `touch_at` at the time read.
    pub fn touch(&mut self)
        ensures
            *final(self) == (Session { last_accessed_at: final(self).last_accessed_at, ..*old(self) }),
    {
        self.touch_at(crate::ids::now_micros());
    }

    /// Whole seconds (rounded toward zero) since the last access, at time `now`.
    pub open spec fn spec_idle_seconds(&self, now: i64) -> int {
        let d = now as int - self.last_accessed_at as int;
        if d >= 0 { d / 1_000_000 } else { -((-d) / 1_000_000) }
    }

    /// Whether the session has been idle longer than `idle_timeout` seconds at time `now`.
    pub fn is_idle_at(&self, idle_timeout: i64, now: i64) -> (b: bool)
        ensures
            b == (self.spec_idle_seconds(now) > idle_timeout),
    {
        let d: i128 = (now as i128) - (self.last_accessed_at as i128);
        let secs: i128 = if d >= 0 { d / 1_000_000 } else { -((-d) / 1_000_000) };
        secs > idle_timeout as i128
    }

    /// Whether the session has been idle (by the clock) for more than
    /// `idle_timeout` seconds: `is_idle_at` at the time read.
    pub fn is_idle(&self, idle_timeout: i64) -> (b: bool)
        ensures
            exists|now: i64| b == (#[trigger] self.spec_idle_seconds(now) > idle_timeout),
    {
        let now = crate::ids::now_micros();
        let b = self.is_idle_at(idle_timeout, now);
        assert(b == (self.spec_idle_seconds(now) > idle_timeout));
        b
    }

    /// Moves the session to `reason` when it is a terminated state; otherwise leaves it.
    pub fn terminate(&mut self, reason: SessionState)
        ensures
            final(self).state == (if reason.spec_is_terminated() { reason } else { old(self).state }),
            *final(self) == (Session { state: final(self).state, ..*old(self) }),
    {
        if reason.is_terminated() {
            self.state = reason;
        }
    }

    /// Whether `new_ip` differs from the session's last IP address.
    pub fn ip_changed(&self, new_ip: IpAddress) -> (b: bool)
        ensures
            b == (self.ip_address != new_ip),
    {
        self.ip_address != new_ip
    }

    /// Applies a risk assessment: a high risk moves an active session to
    /// `PendingRiskCheck`; other states are left as they are.
    pub fn apply_risk_assessment(&mut self, is_high: bool)
        ensures
            final(self).state == (if is_high && old(self).state is Active {
                SessionState::PendingRiskCheck
            } else {
                old(self).state
            }),
            *final(self) == (Session { state: final(self).state, ..*old(self) }),
    {
        if is_high && self.state == SessionState::Active {
            self.state = SessionState::PendingRiskCheck;
        }
    }

    /// Records a failed authentication attempt; from the third one on the
    /// session is marked suspicious.
    pub fn record_failed_auth(&mut self)
        requires
            old(self).failed_auth_attempts < u32::MAX,
        ensures
            final(self).failed_auth_attempts == old(self).failed_auth_attempts + 1,
            final(self).state == (if final(self).failed_auth_attempts >= MAX_FAILED_AUTH_ATTEMPTS {
                SessionState::Suspicious
            } else {
                old(self).state
            }),
            *final(self) == (Session {
                failed_auth_attempts: final(self).failed_auth_attempts,
                state: final(self).state,
                ..*old(self)
            }),
    {
        self.failed_auth_attempts = self.failed_auth_attempts + 1;
        if self.failed_auth_attempts >= MAX_FAILED_AUTH_ATTEMPTS {
            self.state = SessionState::Suspicious;
        }
    }

    /// Whether a step-up is needed for the required factors.
    pub fn requires_stepup(&self, required_mfa: bool, required_webauthn: bool) -> (b: bool)
        ensures
            b == ((required_mfa && !self.mfa_verified) || (required_webauthn && !self.webauthn_verified)),
    {
        if required_mfa && !self.mfa_verified {
            return true;
        }
        if required_webauthn && !self.webauthn_verified {
            return true;
        }
        false
    }
}

/// A terminated session stays terminated under `terminate`, risk assessments
/// and failed attempts.
pub proof fn lemma_terminated_is_absorbing(s: SessionState, reason: SessionState, high: bool)
    requires
        s.spec_is_terminated(),
    ensures
        (if reason.spec_is_terminated() { reason } else { s }).spec_is_terminated(),
        (if high && s is Active { SessionState::PendingRiskCheck } else { s }).spec_is_terminated(),
{
}

} // verus!
