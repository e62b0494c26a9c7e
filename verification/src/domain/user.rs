use vstd::prelude::*;

verus! {

/// Authentication domain: separates user types for security isolation.
#[derive(Debug, Clone, Copy, PartialEq, Eq, Hash, Structural)]
pub enum UserDomain {
    /// Retail/individual traders
    Retail,
    /// Institutional clients (funds, family offices, ...)
    Institutional,
    /// Platform administrators
    Admin,
    /// Compliance and audit personnel
    Compliance,
    /// System-to-system service accounts
    Service,
}

/// The name of a domain, as its `Debug` rendering writes it.
pub open spec fn domain_name(d: UserDomain) -> Seq<char> {
    match d {
        UserDomain::Retail => "Retail"@,
        UserDomain::Institutional => "Institutional"@,
        UserDomain::Admin => "Admin"@,
        UserDomain::Compliance => "Compliance"@,
        UserDomain::Service => "Service"@,
    }
}

impl UserDomain {
    /// The name of the domain (as `domain_name`).
    pub fn debug_name(&self) -> (s: String)
        ensures
            s@ == domain_name(*self),
    {
        match self {
            UserDomain::Retail => String::from_str("Retail"),
            UserDomain::Institutional => String::from_str("Institutional"),
            UserDomain::Admin => String::from_str("Admin"),
            UserDomain::Compliance => String::from_str("Compliance"),
            UserDomain::Service => String::from_str("Service"),
        }
    }

    pub open spec fn spec_is_privileged(self) -> bool {
        self is Admin || self is Compliance || self is Service
    }

    pub open spec fn spec_access_token_ttl(self) -> i64 {
        match self {
            UserDomain::Retail => 900,
            UserDomain::Institutional => 1800,
            UserDomain::Admin => 600,
            UserDomain::Compliance => 900,
            UserDomain::Service => 3600,
        }
    }

    pub open spec fn spec_refresh_token_ttl(self) -> i64 {
        match self {
            UserDomain::Retail => 2592000,
            UserDomain::Institutional => 604800,
            UserDomain::Admin => 43200,
            UserDomain::Compliance => 86400,
            UserDomain::Service => 0,
        }
    }

    /// Whether the domain has elevated privileges.
    pub fn is_privileged(&self) -> (b: bool)
        ensures
            b == self.spec_is_privileged(),
    {
        match self {
            UserDomain::Admin | UserDomain::Compliance | UserDomain::Service => true,
            _ => false,
        }
    }

    /// Whether the domain can access administrative functions.
    pub fn can_admin(&self) -> (b: bool)
        ensures
            b == (*self is Admin),
    {
        match self {
            UserDomain::Admin => true,
            _ => false,
        }
    }

    /// Whether the domain can access compliance functions.
    pub fn can_audit(&self) -> (b: bool)
        ensures
            b == (*self is Admin || *self is Compliance),
    {
        match self {
            UserDomain::Admin | UserDomain::Compliance => true,
            _ => false,
        }
    }

    /// Access token lifetime for this domain, in seconds.
    pub fn access_token_ttl(&self) -> (t: i64)
        ensures
            t == self.spec_access_token_ttl(),
    {
        match self {
            UserDomain::Retail => 900,
            UserDomain::Institutional => 1800,
            UserDomain::Admin => 600,
            UserDomain::Compliance => 900,
            UserDomain::Service => 3600,
        }
    }

    /// Refresh token lifetime for this domain, in seconds (0: no refresh tokens).
    pub fn refresh_token_ttl(&self) -> (t: i64)
        ensures
            t == self.spec_refresh_token_ttl(),
    {
        match self {
            UserDomain::Retail => 2592000,
            UserDomain::Institutional => 604800,
            UserDomain::Admin => 43200,
            UserDomain::Compliance => 86400,
            UserDomain::Service => 0,
        }
    }
}


/// User type with granular categories.
#[derive(Debug, Clone, Copy, PartialEq, Eq, Structural)]
pub enum UserType {
    RetailBasic,
    RetailPremium,
    RetailProfessional,
    InstitutionalHedgeFund,
    InstitutionalFamilyOffice,
    InstitutionalMarketMaker,
    InstitutionalPropTrading,
    AdminSuperUser,
    AdminOperations,
    AdminSupport,
    ComplianceOfficer,
    ComplianceAuditor,
    ComplianceAnalyst,
    ServiceAPI,
    ServiceBackoffice,
    ServiceRiskEngine,
}

impl UserType {
    pub open spec fn spec_domain(self) -> UserDomain {
        match self {
            UserType::RetailBasic | UserType::RetailPremium | UserType::RetailProfessional => UserDomain::Retail,
            UserType::InstitutionalHedgeFund | UserType::InstitutionalFamilyOffice
            | UserType::InstitutionalMarketMaker | UserType::InstitutionalPropTrading => UserDomain::Institutional,
            UserType::AdminSuperUser | UserType::AdminOperations | UserType::AdminSupport => UserDomain::Admin,
            UserType::ComplianceOfficer | UserType::ComplianceAuditor | UserType::ComplianceAnalyst => UserDomain::Compliance,
            UserType::ServiceAPI | UserType::ServiceBackoffice | UserType::ServiceRiskEngine => UserDomain::Service,
        }
    }

    pub open spec fn spec_requires_mfa(self) -> bool {
        ||| self is RetailProfessional
        ||| self is InstitutionalHedgeFund
        ||| self is InstitutionalFamilyOffice
        ||| self is InstitutionalMarketMaker
        ||| self is InstitutionalPropTrading
        ||| self is AdminSuperUser
        ||| self is AdminOperations
        ||| self is ComplianceOfficer
        ||| self is ComplianceAuditor
    }

    pub open spec fn spec_requires_webauthn(self) -> bool {
        ||| self is InstitutionalHedgeFund
        ||| self is InstitutionalFamilyOffice
        ||| self is InstitutionalMarketMaker
        ||| self is InstitutionalPropTrading
        ||| self is AdminSuperUser
        ||| self is AdminOperations
        ||| self is ComplianceOfficer
    }

    pub open spec fn spec_max_session_lifetime(self) -> i64 {
        match self.spec_domain() {
            UserDomain::Retail => 86400,
            UserDomain::Institutional => 43200,
            UserDomain::Admin => 28800,
            UserDomain::Compliance => 28800,
            UserDomain::Service => 0,
        }
    }

    /// The domain this user type belongs to.
    pub fn domain(&self) -> (d: UserDomain)
        ensures
            d == self.spec_domain(),
    {
        match self {
            UserType::RetailBasic | UserType::RetailPremium | UserType::RetailProfessional => UserDomain::Retail,
            UserType::InstitutionalHedgeFund | UserType::InstitutionalFamilyOffice
            | UserType::InstitutionalMarketMaker | UserType::InstitutionalPropTrading => UserDomain::Institutional,
            UserType::AdminSuperUser | UserType::AdminOperations | UserType::AdminSupport => UserDomain::Admin,
            UserType::ComplianceOfficer | UserType::ComplianceAuditor | UserType::ComplianceAnalyst => UserDomain::Compliance,
            UserType::ServiceAPI | UserType::ServiceBackoffice | UserType::ServiceRiskEngine => UserDomain::Service,
        }
    }

    /// Whether this user type requires MFA.
    pub fn requires_mfa(&self) -> (b: bool)
        ensures
            b == self.spec_requires_mfa(),
    {
        match self {
            UserType::RetailProfessional | UserType::InstitutionalHedgeFund
            | UserType::InstitutionalFamilyOffice | UserType::InstitutionalMarketMaker
            | UserType::InstitutionalPropTrading | UserType::AdminSuperUser
            | UserType::AdminOperations | UserType::ComplianceOfficer
            | UserType::ComplianceAuditor => true,
            _ => false,
        }
    }

    /// Whether this user type requires phishing-resistant authentication (WebAuthn).
    pub fn requires_webauthn(&self) -> (b: bool)
        ensures
            b == self.spec_requires_webauthn(),
    {
        match self {
            UserType::InstitutionalHedgeFund | UserType::InstitutionalFamilyOffice
            | UserType::InstitutionalMarketMaker | UserType::InstitutionalPropTrading
            | UserType::AdminSuperUser | UserType::AdminOperations
            | UserType::ComplianceOfficer => true,
            _ => false,
        }
    }

    /// Maximum session lifetime, in seconds.
    pub fn max_session_lifetime(&self) -> (t: i64)
        ensures
            t == self.spec_max_session_lifetime(),
    {
        match self.domain() {
            UserDomain::Retail => 86400,
            UserDomain::Institutional => 43200,
            UserDomain::Admin => 28800,
            UserDomain::Compliance => 28800,
            UserDomain::Service => 0,
        }
    }
}

/// Every user type that requires WebAuthn also requires MFA.
pub proof fn lemma_webauthn_implies_mfa(t: UserType)
    ensures
        t.spec_requires_webauthn() ==> t.spec_requires_mfa(),
{
}

/// Complete user identity. Times are Unix timestamps in microseconds.
#[derive(Debug, Clone)]
pub struct User {
    pub id: crate::ids::UserId,
    pub user_type: UserType,
    pub email: String,
    pub created_at: i64,
    pub last_login: Option<i64>,
    pub mfa_enabled: bool,
    pub webauthn_enabled: bool,
    pub account_locked: bool,
    pub lockout_until: Option<i64>,
    pub failed_login_attempts: u32,
    pub password_changed_at: i64,
    pub must_change_password: bool,
}

impl User {
    /// The account is usable at time `now`: not locked and not inside a lockout window.
    pub open spec fn spec_is_active_at(&self, now: i64) -> bool {
        !self.account_locked && match self.lockout_until {
            Some(until) => !(until > now),
            None => true,
        }
    }

    /// Whether the account is active and not locked at time `now` (microseconds).
    pub fn is_active_at(&self, now: i64) -> (b: bool)
        ensures
            b == self.spec_is_active_at(now),
    {
        if self.account_locked {
            return false;
        }
        if let Some(lockout) = self.lockout_until {
            if lockout > now {
                return false;
            }
        }
        true
    }

    /// Whether the account is active and not locked now.
    pub fn is_active(&self) -> (b: bool)
        ensures
            self.account_locked ==> !b,
            self.lockout_until is None ==> b == !self.account_locked,
    {
        let now = crate::ids::now_micros();
        self.is_active_at(now)
    }

    /// Whether the user must go through MFA.
    pub fn should_require_mfa(&self) -> (b: bool)
        ensures
            b == (self.mfa_enabled || self.user_type.spec_requires_mfa()),
    {
        self.mfa_enabled || self.user_type.requires_mfa()
    }

    /// Whether the user must go through WebAuthn.
    pub fn should_require_webauthn(&self) -> (b: bool)
        ensures
            b == (self.webauthn_enabled || self.user_type.spec_requires_webauthn()),
    {
        self.webauthn_enabled || self.user_type.requires_webauthn()
    }

    /// The authentication domain of the user.
    pub fn domain(&self) -> (d: UserDomain)
        ensures
            d == self.user_type.spec_domain(),
    {
        self.user_type.domain()
    }
}

} // verus!
