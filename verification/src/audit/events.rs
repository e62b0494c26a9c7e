//! Kinds of audit events: severity, category and outcome (with the names
//! they are reported under), and the data of authentication,
//! authorization, session, administration and compliance events. Times are
//! Unix times in microseconds.
use vstd::prelude::*;
use crate::authz::types::{Action, ResourceType};
use crate::domain::claims::AccessClaims;
use crate::domain::user::UserDomain;
use crate::ids::{IpAddress, SessionId, UserId, parse_uuid, uuid_parse_value};

verus! {

/// Severity of an audit event.
#[derive(Debug, Clone, Copy, PartialEq, Eq, Structural)]
pub enum Severity {
    Info,
    Low,
    Medium,
    High,
    Critical,
}

/// The name a severity is reported under.
pub open spec fn severity_name(s: Severity) -> Seq<char> {
    match s {
        Severity::Info => "INFO"@,
        Severity::Low => "LOW"@,
        Severity::Medium => "MEDIUM"@,
        Severity::High => "HIGH"@,
        Severity::Critical => "CRITICAL"@,
    }
}

impl Severity {
    /// The name the severity is reported under (upper case).
    pub fn name(&self) -> (s: &'static str)
        ensures
            s@ == severity_name(*self),
    {
        match self {
            Severity::Info => "INFO",
            Severity::Low => "LOW",
            Severity::Medium => "MEDIUM",
            Severity::High => "HIGH",
            Severity::Critical => "CRITICAL",
        }
    }
}

/// Category of an audit event.
#[derive(Debug, Clone, Copy, PartialEq, Eq, Structural)]
pub enum EventCategory {
    Authentication,
    Authorization,
    Session,
    Security,
    Admin,
    Compliance,
}

/// The name a category is reported under.
pub open spec fn category_name(c: EventCategory) -> Seq<char> {
    match c {
        EventCategory::Authentication => "authentication"@,
        EventCategory::Authorization => "authorization"@,
        EventCategory::Session => "session"@,
        EventCategory::Security => "security"@,
        EventCategory::Admin => "admin"@,
        EventCategory::Compliance => "compliance"@,
    }
}

impl EventCategory {
    /// The name the category is reported under (snake case).
    pub fn name(&self) -> (s: &'static str)
        ensures
            s@ == category_name(*self),
    {
        match self {
            EventCategory::Authentication => "authentication",
            EventCategory::Authorization => "authorization",
            EventCategory::Session => "session",
            EventCategory::Security => "security",
            EventCategory::Admin => "admin",
            EventCategory::Compliance => "compliance",
        }
    }
}

/// Outcome of an audited action.
#[derive(Debug, Clone, Copy, PartialEq, Eq, Structural)]
pub enum EventOutcome {
    Success,
    Failure,
    Partial,
}

/// The name an outcome is reported under.
pub open spec fn outcome_name(o: EventOutcome) -> Seq<char> {
    match o {
        EventOutcome::Success => "success"@,
        EventOutcome::Failure => "failure"@,
        EventOutcome::Partial => "partial"@,
    }
}

impl EventOutcome {
    /// The name the outcome is reported under (lower case).
    pub fn name(&self) -> (s: &'static str)
        ensures
            s@ == outcome_name(*self),
    {
        match self {
            EventOutcome::Success => "success",
            EventOutcome::Failure => "failure",
            EventOutcome::Partial => "partial",
        }
    }
}

/// The severity of an authentication, authorization or session event with
/// `outcome`: a success is informational, a failure of medium severity, a
/// partial outcome of low severity.
pub fn outcome_severity(outcome: EventOutcome) -> (s: Severity)
    ensures
        s == (match outcome {
            EventOutcome::Success => Severity::Info,
            EventOutcome::Failure => Severity::Medium,
            EventOutcome::Partial => Severity::Low,
        }),
{
    match outcome {
        EventOutcome::Success => Severity::Info,
        EventOutcome::Failure => Severity::Medium,
        EventOutcome::Partial => Severity::Low,
    }
}

/// Data of an authentication event.
#[derive(Debug, Clone)]
pub enum AuthenticationEvent {
    TokenValidation { token_type: String, validation_result: bool, reason: Option<String> },
    TokenRefresh { old_token_id: Option<String>, new_token_id: Option<String> },
    MfaChallenge { mfa_type: String, challenge_sent: bool },
    MfaVerification { mfa_type: String, verified: bool, attempts: u32 },
    WebAuthnRegistration { credential_id: String, authenticator_type: String, attestation_format: Option<String> },
    WebAuthnAuthentication { credential_id: String, user_verified: bool, counter: u32 },
    PasswordLogin { username: String, failed_attempts: u32 },
    Logout { reason: String },
}

/// Data of an authorization event.
#[derive(Debug, Clone)]
pub enum AuthorizationEvent {
    PermissionCheck {
        resource_type: ResourceType,
        resource_id: Option<String>,
        action: Action,
        decision: String,
        policy_evaluated: String,
    },
    AccessDenied { resource_type: ResourceType, resource_id: Option<String>, action: Action, reason: String },
    RoleAssignment { target_user_id: UserId, role: String, assigned_by: UserId },
    RoleRevocation { target_user_id: UserId, role: String, revoked_by: UserId },
    PolicyUpdate { policy_type: String, policy_id: String, updated_by: UserId },
}

/// Data of a session event.
#[derive(Debug, Clone)]
pub enum SessionEvent {
    Created { session_type: String, ttl_seconds: u64 },
    Extended { old_expiry: i64, new_expiry: i64 },
    Expired { expiry_time: i64, reason: String },
    Revoked { reason: String, revoked_by: Option<UserId> },
    HijackDetected { reason: String, original_ip: Option<IpAddress>, suspicious_ip: IpAddress },
}

/// Data of an administration event.
#[derive(Debug, Clone)]
pub enum AdminEvent {
    UserCreated { target_user_id: UserId, domain: UserDomain },
    UserDeleted { target_user_id: UserId, reason: String },
    UserSuspended { target_user_id: UserId, reason: String, duration_seconds: Option<u64> },
    ConfigurationChanged { config_key: String, old_value: Option<String>, new_value: String },
    ApiKeyCreated { key_id: String, permissions: Vec<String> },
    ApiKeyRevoked { key_id: String, reason: String },
}

/// Data of a compliance event.
#[derive(Debug, Clone)]
pub enum ComplianceEvent {
    DataAccess { data_type: String, record_count: u64, purpose: String },
    DataExport { data_type: String, record_count: u64, destination: String },
    AuditLogAccess { query: String, record_count: u64 },
    ReportGenerated { report_type: String, time_range_start: i64, time_range_end: i64 },
}

/// Who an authorization event is about, from the claims of the request:
/// the user (with the token's domain) when the subject reads as a UUID, and
/// the session when its identifier does.
pub fn claims_subject(claims: &AccessClaims) -> (r: (Option<(UserId, UserDomain)>, Option<SessionId>))
    ensures
        r.0 == (match uuid_parse_value(claims.standard.sub@) {
            Some(v) => Some((UserId(v), claims.domain)),
            None => None,
        }),
        r.1 == (match uuid_parse_value(claims.session_id@) {
            Some(v) => Some(SessionId(v)),
            None => None,
        }),
{
    let user = match parse_uuid(claims.standard.sub.as_str()) {
        Some(v) => Some((UserId(v), claims.domain)),
        None => None,
    };
    let session = match parse_uuid(claims.session_id.as_str()) {
        Some(v) => Some(SessionId(v)),
        None => None,
    };
    (user, session)
}

} // verus!
