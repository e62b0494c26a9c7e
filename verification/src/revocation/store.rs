//! Token revocation: reasons, records, statistics and errors.
//! Times are Unix times in microseconds.
use vstd::prelude::*;
use crate::ids::{TokenId, UserId};
use crate::text::{concat2, str_eq};

verus! {

/// Revocation errors.
#[derive(Debug)]
pub enum RevocationError {
    Storage(String),
    NotFound(String),
    Serialization(String),
    Connection(String),
    InvalidOperation(String),
}

impl RevocationError {
    /// Human-readable message of the error.
    pub fn message(&self) -> (s: String)
        ensures
            match self {
                RevocationError::Storage(m) => s@ == "Storage error: "@ + m@,
                RevocationError::NotFound(m) => s@ == "Token not found: "@ + m@,
                RevocationError::Serialization(m) => s@ == "Serialization error: "@ + m@,
                RevocationError::Connection(m) => s@ == "Connection error: "@ + m@,
                RevocationError::InvalidOperation(m) => s@ == "Invalid operation: "@ + m@,
            },
    {
        match self {
            RevocationError::Storage(m) => concat2("Storage error: ", m.as_str()),
            RevocationError::NotFound(m) => concat2("Token not found: ", m.as_str()),
            RevocationError::Serialization(m) => concat2("Serialization error: ", m.as_str()),
            RevocationError::Connection(m) => concat2("Connection error: ", m.as_str()),
            RevocationError::InvalidOperation(m) => concat2("Invalid operation: ", m.as_str()),
        }
    }
}

/// Why a token was revoked.
#[derive(Debug, Clone, Copy, PartialEq, Eq, Structural)]
pub enum RevocationReason {
    UserLogout,
    PasswordChange,
    UserDeactivated,
    SecurityCompromise,
    AdminRevocation,
    Expiration,
    MaxRotations,
    SuspiciousActivity,
}

/// The reasons that revoke every token of the user at once.
pub open spec fn is_full_revocation(r: RevocationReason) -> bool {
    r is PasswordChange || r is UserDeactivated || r is SecurityCompromise || r is AdminRevocation
}

/// Human-readable description of a reason.
pub open spec fn reason_description(r: RevocationReason) -> Seq<char> {
    match r {
        RevocationReason::UserLogout => "User logged out"@,
        RevocationReason::PasswordChange => "Password changed"@,
        RevocationReason::UserDeactivated => "User account deactivated"@,
        RevocationReason::SecurityCompromise => "Security compromise"@,
        RevocationReason::AdminRevocation => "Administrative revocation"@,
        RevocationReason::Expiration => "Token expired"@,
        RevocationReason::MaxRotations => "Maximum rotations reached"@,
        RevocationReason::SuspiciousActivity => "Suspicious activity detected"@,
    }
}

/// Storage code of a reason.
pub open spec fn reason_code(r: RevocationReason) -> Seq<char> {
    match r {
        RevocationReason::UserLogout => "user_logout"@,
        RevocationReason::PasswordChange => "password_change"@,
        RevocationReason::UserDeactivated => "user_deactivated"@,
        RevocationReason::SecurityCompromise => "security_compromise"@,
        RevocationReason::AdminRevocation => "admin_revocation"@,
        RevocationReason::Expiration => "expiration"@,
        RevocationReason::MaxRotations => "max_rotations"@,
        RevocationReason::SuspiciousActivity => "suspicious_activity"@,
    }
}

impl RevocationReason {
    /// Whether the reason revokes every token of the user.
    pub fn requires_full_revocation(&self) -> (b: bool)
        ensures
            b == is_full_revocation(*self),
    {
        match self {
            RevocationReason::PasswordChange | RevocationReason::UserDeactivated
            | RevocationReason::SecurityCompromise | RevocationReason::AdminRevocation => true,
            _ => false,
        }
    }

    /// Human-readable description.
    pub fn description(&self) -> (s: &'static str)
        ensures
            s@ == reason_description(*self),
    {
        match self {
            RevocationReason::UserLogout => "User logged out",
            RevocationReason::PasswordChange => "Password changed",
            RevocationReason::UserDeactivated => "User account deactivated",
            RevocationReason::SecurityCompromise => "Security compromise",
            RevocationReason::AdminRevocation => "Administrative revocation",
            RevocationReason::Expiration => "Token expired",
            RevocationReason::MaxRotations => "Maximum rotations reached",
            RevocationReason::SuspiciousActivity => "Suspicious activity detected",
        }
    }
}

/// The storage code of `reason`.
pub fn reason_to_string(reason: RevocationReason) -> (s: String)
    ensures
        s@ == reason_code(reason),
{
    let code = match reason {
        RevocationReason::UserLogout => "user_logout",
        RevocationReason::PasswordChange => "password_change",
        RevocationReason::UserDeactivated => "user_deactivated",
        RevocationReason::SecurityCompromise => "security_compromise",
        RevocationReason::AdminRevocation => "admin_revocation",
        RevocationReason::Expiration => "expiration",
        RevocationReason::MaxRotations => "max_rotations",
        RevocationReason::SuspiciousActivity => "suspicious_activity",
    };
    String::from_str(code)
}

/// The reason with storage code `s`; an unknown code reads as
/// `AdminRevocation`.
pub fn string_to_reason(s: &str) -> (r: RevocationReason)
    ensures
        r == reason_from_code(s@),
{
    if str_eq(s, "user_logout") {
        RevocationReason::UserLogout
    } else if str_eq(s, "password_change") {
        RevocationReason::PasswordChange
    } else if str_eq(s, "user_deactivated") {
        RevocationReason::UserDeactivated
    } else if str_eq(s, "security_compromise") {
        RevocationReason::SecurityCompromise
    } else if str_eq(s, "admin_revocation") {
        RevocationReason::AdminRevocation
    } else if str_eq(s, "expiration") {
        RevocationReason::Expiration
    } else if str_eq(s, "max_rotations") {
        RevocationReason::MaxRotations
    } else if str_eq(s, "suspicious_activity") {
        RevocationReason::SuspiciousActivity
    } else {
        RevocationReason::AdminRevocation
    }
}

/// The reason a storage code stands for (`AdminRevocation` for an unknown code).
pub open spec fn reason_from_code(s: Seq<char>) -> RevocationReason {
    if s == "user_logout"@ { RevocationReason::UserLogout }
    else if s == "password_change"@ { RevocationReason::PasswordChange }
    else if s == "user_deactivated"@ { RevocationReason::UserDeactivated }
    else if s == "security_compromise"@ { RevocationReason::SecurityCompromise }
    else if s == "admin_revocation"@ { RevocationReason::AdminRevocation }
    else if s == "expiration"@ { RevocationReason::Expiration }
    else if s == "max_rotations"@ { RevocationReason::MaxRotations }
    else if s == "suspicious_activity"@ { RevocationReason::SuspiciousActivity }
    else { RevocationReason::AdminRevocation }
}

/// A stored code reads back as the reason that was stored.
pub proof fn lemma_reason_code_roundtrip(r: RevocationReason)
    ensures
        reason_from_code(reason_code(r)) == r,
{
    reveal_strlit("user_logout");
    reveal_strlit("password_change");
    reveal_strlit("user_deactivated");
    reveal_strlit("security_compromise");
    reveal_strlit("admin_revocation");
    reveal_strlit("expiration");
    reveal_strlit("max_rotations");
    reveal_strlit("suspicious_activity");
    let c = reason_code(r);
    match r {
        RevocationReason::UserLogout => {

        },
        RevocationReason::PasswordChange => {
            assert(c.len() != "user_logout"@.len() || c[0] != "user_logout"@[0] || c[1] != "user_logout"@[1]);
        },
        RevocationReason::UserDeactivated => {
            assert(c.len() != "user_logout"@.len() || c[0] != "user_logout"@[0] || c[1] != "user_logout"@[1]);
            assert(c.len() != "password_change"@.len() || c[0] != "password_change"@[0] || c[1] != "password_change"@[1]);
        },
        RevocationReason::SecurityCompromise => {
            assert(c.len() != "user_logout"@.len() || c[0] != "user_logout"@[0] || c[1] != "user_logout"@[1]);
            assert(c.len() != "password_change"@.len() || c[0] != "password_change"@[0] || c[1] != "password_change"@[1]);
            assert(c.len() != "user_deactivated"@.len() || c[0] != "user_deactivated"@[0] || c[1] != "user_deactivated"@[1]);
        },
        RevocationReason::AdminRevocation => {
            assert(c.len() != "user_logout"@.len() || c[0] != "user_logout"@[0] || c[1] != "user_logout"@[1]);
            assert(c.len() != "password_change"@.len() || c[0] != "password_change"@[0] || c[1] != "password_change"@[1]);
            assert(c.len() != "user_deactivated"@.len() || c[0] != "user_deactivated"@[0] || c[1] != "user_deactivated"@[1]);
            assert(c.len() != "security_compromise"@.len() || c[0] != "security_compromise"@[0] || c[1] != "security_compromise"@[1]);
        },
        RevocationReason::Expiration => {
            assert(c.len() != "user_logout"@.len() || c[0] != "user_logout"@[0] || c[1] != "user_logout"@[1]);
            assert(c.len() != "password_change"@.len() || c[0] != "password_change"@[0] || c[1] != "password_change"@[1]);
            assert(c.len() != "user_deactivated"@.len() || c[0] != "user_deactivated"@[0] || c[1] != "user_deactivated"@[1]);
            assert(c.len() != "security_compromise"@.len() || c[0] != "security_compromise"@[0] || c[1] != "security_compromise"@[1]);
            assert(c.len() != "admin_revocation"@.len() || c[0] != "admin_revocation"@[0] || c[1] != "admin_revocation"@[1]);
        },
        RevocationReason::MaxRotations => {
            assert(c.len() != "user_logout"@.len() || c[0] != "user_logout"@[0] || c[1] != "user_logout"@[1]);
            assert(c.len() != "password_change"@.len() || c[0] != "password_change"@[0] || c[1] != "password_change"@[1]);
            assert(c.len() != "user_deactivated"@.len() || c[0] != "user_deactivated"@[0] || c[1] != "user_deactivated"@[1]);
            assert(c.len() != "security_compromise"@.len() || c[0] != "security_compromise"@[0] || c[1] != "security_compromise"@[1]);
            assert(c.len() != "admin_revocation"@.len() || c[0] != "admin_revocation"@[0] || c[1] != "admin_revocation"@[1]);
            assert(c.len() != "expiration"@.len() || c[0] != "expiration"@[0] || c[1] != "expiration"@[1]);
        },
        RevocationReason::SuspiciousActivity => {
            assert(c.len() != "user_logout"@.len() || c[0] != "user_logout"@[0] || c[1] != "user_logout"@[1]);
            assert(c.len() != "password_change"@.len() || c[0] != "password_change"@[0] || c[1] != "password_change"@[1]);
            assert(c.len() != "user_deactivated"@.len() || c[0] != "user_deactivated"@[0] || c[1] != "user_deactivated"@[1]);
            assert(c.len() != "security_compromise"@.len() || c[0] != "security_compromise"@[0] || c[1] != "security_compromise"@[1]);
            assert(c.len() != "admin_revocation"@.len() || c[0] != "admin_revocation"@[0] || c[1] != "admin_revocation"@[1]);
            assert(c.len() != "expiration"@.len() || c[0] != "expiration"@[0] || c[1] != "expiration"@[1]);
            assert(c.len() != "max_rotations"@.len() || c[0] != "max_rotations"@[0] || c[1] != "max_rotations"@[1]);
        },
    }
}

/// Different reasons have different storage codes.
pub proof fn lemma_reason_codes_distinct(a: RevocationReason, b: RevocationReason)
    ensures
        reason_code(a) == reason_code(b) ==> a == b,
{
    lemma_reason_code_roundtrip(a);
    lemma_reason_code_roundtrip(b);
}

/// Record of a revoked token.
#[derive(Debug)]
pub struct RevokedToken {
    pub jti: TokenId,
    pub user_id: UserId,
    pub revoked_at: i64,
    pub reason: RevocationReason,
    /// When the token would have expired.
    pub expires_at: i64,
    pub notes: Option<String>,
}

impl RevokedToken {
    /// A record made at `now`.
    pub fn new_at(jti: TokenId, user_id: UserId, reason: RevocationReason, expires_at: i64, notes: Option<String>, now: i64) -> (t: RevokedToken)
        ensures
            t == (RevokedToken { jti, user_id, revoked_at: now, reason, expires_at, notes }),
    {
        RevokedToken { jti, user_id, revoked_at: now, reason, expires_at, notes }
    }

    /// A record made now.
    pub fn new(jti: TokenId, user_id: UserId, reason: RevocationReason, expires_at: i64, notes: Option<String>) -> (t: RevokedToken)
        ensures
            t.jti == jti && t.user_id == user_id && t.reason == reason && t.expires_at == expires_at && t.notes == notes,
    {
        RevokedToken::new_at(jti, user_id, reason, expires_at, notes, crate::ids::now_micros())
    }

    /// Whether the record can be dropped at `now`: the token would have expired.
    pub fn can_cleanup_at(&self, now: i64) -> (b: bool)
        ensures
            b == (now > self.expires_at),
    {
        now > self.expires_at
    }

    /// Whether the record can be dropped at `now`.
    pub open spec fn spec_can_cleanup_at(&self, now: i64) -> bool {
        now > self.expires_at
    }

    /// Whether the record can be dropped now: `can_cleanup_at` at the time read.
    pub fn can_cleanup(&self) -> (b: bool)
        ensures
            exists|now: i64| b == #[trigger] self.spec_can_cleanup_at(now),
    {
        let now = crate::ids::now_micros();
        let b = self.can_cleanup_at(now);
        assert(b == self.spec_can_cleanup_at(now));
        b
    }
}

/// Statistics about revoked tokens.
#[derive(Debug)]
pub struct RevocationStats {
    pub total_revoked: usize,
    /// Revocations in the last 24 hours.
    pub revoked_24h: usize,
    /// Records that can be dropped.
    pub cleanable: usize,
    /// Count of revocations by reason description.
    pub by_reason: Vec<(String, usize)>,
}

} // verus!
