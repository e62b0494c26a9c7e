//! Scopes and JWT claims.
use vstd::prelude::*;
use crate::domain::user::UserDomain;
use crate::ids::{UserId, TokenId, uuid_text};
use crate::text::{string_views, contains_string, concat2, concat3};

verus! {

/// Scope carried by access tokens.
#[derive(Debug, Clone, Copy, PartialEq, Eq, Hash, Structural)]
pub enum ClaimScope {
    TradeRead,
    TradeWrite,
    TradeCancel,
    AccountRead,
    AccountWrite,
    PositionRead,
    MarketRead,
    MarketSubscribe,
    WithdrawalInitiate,
    WithdrawalApprove,
    AdminUsers,
    AdminCompliance,
    AdminSystem,
    AdminAudit,
    ApiRead,
    ApiWrite,
}

/// The default scopes of a domain, in the order they are granted.
pub open spec fn domain_default_scopes(domain: UserDomain) -> Seq<ClaimScope> {
    match domain {
        UserDomain::Retail => seq![
            ClaimScope::TradeRead, ClaimScope::TradeWrite, ClaimScope::TradeCancel,
            ClaimScope::AccountRead, ClaimScope::PositionRead, ClaimScope::MarketRead,
            ClaimScope::MarketSubscribe, ClaimScope::WithdrawalInitiate,
        ],
        UserDomain::Institutional => seq![
            ClaimScope::TradeRead, ClaimScope::TradeWrite, ClaimScope::TradeCancel,
            ClaimScope::AccountRead, ClaimScope::AccountWrite, ClaimScope::PositionRead,
            ClaimScope::MarketRead, ClaimScope::MarketSubscribe, ClaimScope::WithdrawalInitiate,
            ClaimScope::ApiRead, ClaimScope::ApiWrite,
        ],
        UserDomain::Admin => seq![
            ClaimScope::TradeRead, ClaimScope::AccountRead, ClaimScope::PositionRead,
            ClaimScope::MarketRead, ClaimScope::AdminUsers, ClaimScope::AdminCompliance,
            ClaimScope::AdminSystem, ClaimScope::AdminAudit,
        ],
        UserDomain::Compliance => seq![
            ClaimScope::TradeRead, ClaimScope::AccountRead, ClaimScope::PositionRead,
            ClaimScope::AdminCompliance, ClaimScope::AdminAudit,
        ],
        UserDomain::Service => seq![ClaimScope::ApiRead, ClaimScope::ApiWrite],
    }
}

impl ClaimScope {
    pub open spec fn spec_is_sensitive(self) -> bool {
        ||| self is WithdrawalInitiate
        ||| self is WithdrawalApprove
        ||| self is AdminUsers
        ||| self is AdminCompliance
        ||| self is AdminSystem
        ||| self is AdminAudit
        ||| self is AccountWrite
    }

    /// Whether the scope requires elevated authentication.
    pub fn is_sensitive(&self) -> (b: bool)
        ensures
            b == self.spec_is_sensitive(),
    {
        match self {
            ClaimScope::WithdrawalInitiate | ClaimScope::WithdrawalApprove
            | ClaimScope::AdminUsers | ClaimScope::AdminCompliance
            | ClaimScope::AdminSystem | ClaimScope::AdminAudit
            | ClaimScope::AccountWrite => true,
            _ => false,
        }
    }

    /// The default scopes of a user domain, as a set without repetitions.
    pub fn defaults_for_domain(domain: UserDomain) -> (v: Vec<ClaimScope>)
        ensures
            v@ == domain_default_scopes(domain),
            v@.no_duplicates(),
    {
        let v = match domain {
            UserDomain::Retail => vec![
                ClaimScope::TradeRead, ClaimScope::TradeWrite, ClaimScope::TradeCancel,
                ClaimScope::AccountRead, ClaimScope::PositionRead, ClaimScope::MarketRead,
                ClaimScope::MarketSubscribe, ClaimScope::WithdrawalInitiate,
            ],
            UserDomain::Institutional => vec![
                ClaimScope::TradeRead, ClaimScope::TradeWrite, ClaimScope::TradeCancel,
                ClaimScope::AccountRead, ClaimScope::AccountWrite, ClaimScope::PositionRead,
                ClaimScope::MarketRead, ClaimScope::MarketSubscribe, ClaimScope::WithdrawalInitiate,
                ClaimScope::ApiRead, ClaimScope::ApiWrite,
            ],
            UserDomain::Admin => vec![
                ClaimScope::TradeRead, ClaimScope::AccountRead, ClaimScope::PositionRead,
                ClaimScope::MarketRead, ClaimScope::AdminUsers, ClaimScope::AdminCompliance,
                ClaimScope::AdminSystem, ClaimScope::AdminAudit,
            ],
            UserDomain::Compliance => vec![
                ClaimScope::TradeRead, ClaimScope::AccountRead, ClaimScope::PositionRead,
                ClaimScope::AdminCompliance, ClaimScope::AdminAudit,
            ],
            UserDomain::Service => vec![ClaimScope::ApiRead, ClaimScope::ApiWrite],
        };
        assert(v@ == domain_default_scopes(domain));
        v
    }
}

/// Whether `scopes` holds `s`.
pub fn scopes_contain(scopes: &Vec<ClaimScope>, s: ClaimScope) -> (b: bool)
    ensures
        b == scopes@.contains(s),
{
    let mut i: usize = 0;
    while i < scopes.len()
        invariant
            i <= scopes.len(),
            forall|j: int| 0 <= j < i ==> scopes@[j] != s,
        decreases scopes.len() - i,
    {
        if scopes[i] == s {
            return true;
        }
        i += 1;
    }
    false
}

/// Standard JWT claims (RFC 7519). Times are Unix timestamps in seconds.
#[derive(Debug, Clone)]
pub struct StandardClaims {
    pub iss: String,
    pub sub: String,
    pub aud: Vec<String>,
    pub exp: i64,
    pub nbf: i64,
    pub iat: i64,
    pub jti: String,
}

/// Whole seconds (rounded toward negative infinity) of a time in microseconds.
pub open spec fn seconds_of(micros: int) -> int {
    micros / 1_000_000
}

/// Whole seconds of a time in microseconds, rounded toward negative infinity.
pub fn micros_to_seconds(micros: i64) -> (s: i64)
    ensures
        s == seconds_of(micros as int),
{
    let q = micros / 1_000_000;
    let r = micros % 1_000_000;
    if r < 0 {
        q - 1
    } else {
        q
    }
}

/// Outcome of checking standard claims at a given time.
pub open spec fn standard_claims_check(
    iss: Seq<char>,
    aud: Seq<Seq<char>>,
    exp: int,
    nbf: int,
    expected_issuer: Seq<char>,
    expected_audience: Seq<char>,
    now: int,
) -> Result<(), Seq<char>> {
    if iss != expected_issuer {
        Err("Invalid issuer: expected "@ + expected_issuer + ", got "@ + iss)
    } else if !aud.contains(expected_audience) {
        Err("Invalid audience: expected "@ + expected_audience)
    } else if now >= exp {
        Err("Token expired"@)
    } else if now < nbf {
        Err("Token not yet valid"@)
    } else {
        Ok(())
    }
}

/// A `Result<(), String>` taken by the view of its error.
pub open spec fn unit_result_view(r: Result<(), String>) -> Result<(), Seq<char>> {
    match r {
        Ok(()) => Ok(()),
        Err(e) => Err(e@),
    }
}

impl StandardClaims {
    /// Outcome of checking these claims at time `now` (Unix seconds).
    pub open spec fn spec_check_at(self, expected_issuer: Seq<char>, expected_audience: Seq<char>, now: int) -> Result<(), Seq<char>> {
        standard_claims_check(self.iss@, string_views(self.aud@), self.exp as int, self.nbf as int,
            expected_issuer, expected_audience, now)
    }

    /// Standard claims for a token issued at `issued_at` and expiring at
    /// `expires_at` (both Unix times in microseconds).
    pub fn new(
        issuer: String,
        subject: UserId,
        audience: Vec<String>,
        jti: TokenId,
        issued_at: i64,
        expires_at: i64,
    ) -> (c: Self)
        ensures
            c.iss == issuer,
            c.sub@ == uuid_text(subject.0),
            c.aud == audience,
            c.exp == seconds_of(expires_at as int),
            c.nbf == seconds_of(issued_at as int),
            c.iat == seconds_of(issued_at as int),
            c.jti@ == uuid_text(jti.0),
    {
        let iat = micros_to_seconds(issued_at);
        StandardClaims {
            iss: issuer,
            sub: subject.to_string(),
            aud: audience,
            exp: micros_to_seconds(expires_at),
            nbf: iat,
            iat,
            jti: jti.to_string(),
        }
    }

    /// Checks issuer, audience, expiry and not-before at time `now` (Unix seconds).
    pub fn validate_at(&self, expected_issuer: &str, expected_audience: &str, now: i64) -> (r: Result<(), String>)
        ensures
            unit_result_view(r) == self.spec_check_at(expected_issuer@, expected_audience@, now as int),
    {
        if !crate::text::str_eq(self.iss.as_str(), expected_issuer) {
            let e = concat3("Invalid issuer: expected ", expected_issuer, ", got ");
            let mut e2 = e;
            e2.append(self.iss.as_str());
            proof { reveal_strlit("Invalid issuer: expected "); reveal_strlit(", got "); }
            return Err(e2);
        }
        if !contains_string(&self.aud, expected_audience) {
            proof { reveal_strlit("Invalid audience: expected "); }
            return Err(concat2("Invalid audience: expected ", expected_audience));
        }
        if now >= self.exp {
            return Err(String::from_str("Token expired"));
        }
        if now < self.nbf {
            return Err(String::from_str("Token not yet valid"));
        }
        Ok(())
    }

    /// Checks the claims against the current time.
    pub fn validate(&self, expected_issuer: &str, expected_audience: &str) -> (r: Result<(), String>)
        ensures
            exists|now: i64| unit_result_view(r) == self.spec_check_at(expected_issuer@, expected_audience@, now as int),
    {
        let now = micros_to_seconds(crate::ids::now_micros());
        self.validate_at(expected_issuer, expected_audience, now)
    }
}

/// Access token claims. The risk score the token was issued with travels
/// outside this type.
#[derive(Debug, Clone)]
pub struct AccessClaims {
    pub standard: StandardClaims,
    pub domain: UserDomain,
    pub device_id: String,
    pub session_id: String,
    pub scopes: Vec<ClaimScope>,
    pub nonce: String,
    pub kid: String,
    pub ip: String,
    pub mfa_verified: bool,
    pub webauthn_verified: bool,
    pub token_version: u32,
}

impl AccessClaims {
    /// Whether the token holds `scope`.
    pub fn has_scope(&self, scope: &ClaimScope) -> (b: bool)
        ensures
            b == self.scopes@.contains(*scope),
    {
        scopes_contain(&self.scopes, *scope)
    }

    /// Whether the token holds every scope of `required`.
    pub fn has_all_scopes(&self, required: &[ClaimScope]) -> (b: bool)
        ensures
            b == (forall|i: int| 0 <= i < required@.len() ==> self.scopes@.contains(#[trigger] required@[i])),
    {
        let mut i: usize = 0;
        while i < required.len()
            invariant
                i <= required@.len(),
                forall|j: int| 0 <= j < i ==> self.scopes@.contains(#[trigger] required@[j]),
            decreases required@.len() - i,
        {
            if !scopes_contain(&self.scopes, required[i]) {
                return false;
            }
            i += 1;
        }
        true
    }

    /// Whether the token holds at least one scope of `required`.
    pub fn has_any_scope(&self, required: &[ClaimScope]) -> (b: bool)
        ensures
            b == (exists|i: int| 0 <= i < required@.len() && self.scopes@.contains(#[trigger] required@[i])),
    {
        let mut i: usize = 0;
        while i < required.len()
            invariant
                i <= required@.len(),
                forall|j: int| 0 <= j < i ==> !self.scopes@.contains(#[trigger] required@[j]),
            decreases required@.len() - i,
        {
            if scopes_contain(&self.scopes, required[i]) {
                return true;
            }
            i += 1;
        }
        false
    }

    /// Checks the standard claims against the current time.
    pub fn validate(&self, expected_issuer: &str, expected_audience: &str) -> (r: Result<(), String>)
        ensures
            exists|now: i64| unit_result_view(r) == self.standard.spec_check_at(expected_issuer@, expected_audience@, now as int),
    {
        self.standard.validate(expected_issuer, expected_audience)
    }
}

/// Refresh token claims.
#[derive(Debug, Clone)]
pub struct RefreshClaims {
    pub standard: StandardClaims,
    pub domain: UserDomain,
    pub device_id: String,
    pub session_id: String,
    pub kid: String,
    pub parent_jti: Option<String>,
    pub generation: u32,
    pub rotation_count: u32,
    pub max_rotations: u32,
    pub token_version: u32,
}

impl RefreshClaims {
    /// Whether the token may be rotated once more.
    pub fn can_rotate(&self) -> (b: bool)
        ensures
            b == (self.rotation_count < self.max_rotations),
    {
        self.rotation_count < self.max_rotations
    }

    /// Checks the standard claims against the current time.
    pub fn validate(&self, expected_issuer: &str, expected_audience: &str) -> (r: Result<(), String>)
        ensures
            exists|now: i64| unit_result_view(r) == self.standard.spec_check_at(expected_issuer@, expected_audience@, now as int),
    {
        self.standard.validate(expected_issuer, expected_audience)
    }
}

/// Claims of either token kind.
#[derive(Debug, Clone)]
pub enum Claims {
    Access(AccessClaims),
    Refresh(RefreshClaims),
}

impl Claims {
    pub open spec fn spec_standard(&self) -> StandardClaims {
        match self {
            Claims::Access(c) => c.standard,
            Claims::Refresh(c) => c.standard,
        }
    }

    /// The JWT ID.
    pub fn jti(&self) -> (s: &str)
        ensures
            s@ == self.spec_standard().jti@,
    {
        match self {
            Claims::Access(c) => c.standard.jti.as_str(),
            Claims::Refresh(c) => c.standard.jti.as_str(),
        }
    }

    /// The subject (user ID).
    pub fn subject(&self) -> (s: &str)
        ensures
            s@ == self.spec_standard().sub@,
    {
        match self {
            Claims::Access(c) => c.standard.sub.as_str(),
            Claims::Refresh(c) => c.standard.sub.as_str(),
        }
    }

    /// The device the token is bound to.
    pub fn device_id(&self) -> (s: &str)
        ensures
            s@ == (match self {
                Claims::Access(c) => c.device_id@,
                Claims::Refresh(c) => c.device_id@,
            }),
    {
        match self {
            Claims::Access(c) => c.device_id.as_str(),
            Claims::Refresh(c) => c.device_id.as_str(),
        }
    }

    /// The session the token belongs to.
    pub fn session_id(&self) -> (s: &str)
        ensures
            s@ == (match self {
                Claims::Access(c) => c.session_id@,
                Claims::Refresh(c) => c.session_id@,
            }),
    {
        match self {
            Claims::Access(c) => c.session_id.as_str(),
            Claims::Refresh(c) => c.session_id.as_str(),
        }
    }

    /// Checks the standard claims against the current time.
    pub fn validate(&self, expected_issuer: &str, expected_audience: &str) -> (r: Result<(), String>)
        ensures
            exists|now: i64| unit_result_view(r) == self.spec_standard().spec_check_at(expected_issuer@, expected_audience@, now as int),
    {
        let standard = match self {
            Claims::Access(c) => &c.standard,
            Claims::Refresh(c) => &c.standard,
        };
        let r = standard.validate(expected_issuer, expected_audience);
        assert(*standard == self.spec_standard());
        r
    }
}

} // verus!
