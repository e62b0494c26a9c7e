use std::collections::hash_map::DefaultHasher;
use std::hash::{Hash, Hasher};
use auth_service::domain::claims::ClaimScope;
use auth_service::domain::session::{DeviceFingerprint, SessionState};
use auth_service::domain::user::{UserDomain, UserType};

#[test]
fn test_scope_sensitivity() {
    assert!(ClaimScope::WithdrawalApprove.is_sensitive());
    assert!(ClaimScope::AdminSystem.is_sensitive());
    assert!(!ClaimScope::MarketRead.is_sensitive());
}

#[test]
fn test_default_scopes_retail() {
    let scopes = ClaimScope::defaults_for_domain(UserDomain::Retail);
    assert!(scopes.contains(&ClaimScope::TradeRead));
    assert!(scopes.contains(&ClaimScope::TradeWrite));
    assert!(!scopes.contains(&ClaimScope::AdminUsers));
}

#[test]
fn test_default_scopes_admin() {
    let scopes = ClaimScope::defaults_for_domain(UserDomain::Admin);
    assert!(scopes.contains(&ClaimScope::AdminUsers));
    assert!(scopes.contains(&ClaimScope::AdminSystem));
    assert!(!scopes.contains(&ClaimScope::TradeWrite));
}

#[test]
fn test_session_state_checks() {
    assert!(SessionState::Active.is_active());
    assert!(SessionState::PendingMfa.is_pending());
    assert!(SessionState::Expired.is_terminated());
}

#[test]
fn test_user_domain_privileges() {
    assert!(UserDomain::Admin.is_privileged());
    assert!(UserDomain::Compliance.is_privileged());
    assert!(!UserDomain::Retail.is_privileged());
    assert!(!UserDomain::Institutional.is_privileged());
}

#[test]
fn test_user_domain_ttl() {
    assert_eq!(UserDomain::Retail.access_token_ttl(), 900);
    assert_eq!(UserDomain::Institutional.access_token_ttl(), 1800);
    assert_eq!(UserDomain::Admin.access_token_ttl(), 600);
}

#[test]
fn test_user_type_domain_mapping() {
    assert_eq!(UserType::RetailBasic.domain(), UserDomain::Retail);
    assert_eq!(UserType::InstitutionalHedgeFund.domain(), UserDomain::Institutional);
    assert_eq!(UserType::AdminSuperUser.domain(), UserDomain::Admin);
    assert_eq!(UserType::ComplianceOfficer.domain(), UserDomain::Compliance);
}

#[test]
fn test_user_type_webauthn_requirements() {
    assert!(UserType::InstitutionalHedgeFund.requires_webauthn());
    assert!(UserType::AdminSuperUser.requires_webauthn());
    assert!(!UserType::RetailBasic.requires_webauthn());
}

fn fingerprint(tz: Option<i32>) -> DeviceFingerprint {
    DeviceFingerprint {
        user_agent: "Mozilla/5.0".to_string(),
        screen_resolution: Some("1920x1080".to_string()),
        timezone_offset: tz,
        language: Some("en-US".to_string()),
        platform: Some("MacIntel".to_string()),
        canvas_hash: Some("abc123".to_string()),
        webgl_renderer: None,
        fonts_hash: None,
        hardware_concurrency: Some(8),
        device_memory: Some(16),
        custom_attributes: Vec::new(),
    }
}

#[test]
fn fingerprint_hash_matches_std_hashing() {
    let fp = fingerprint(Some(-300));
    let mut h = DefaultHasher::new();
    fp.user_agent.hash(&mut h);
    fp.screen_resolution.as_ref().unwrap().hash(&mut h);
    (-300i32).hash(&mut h);
    fp.language.as_ref().unwrap().hash(&mut h);
    fp.platform.as_ref().unwrap().hash(&mut h);
    fp.canvas_hash.as_ref().unwrap().hash(&mut h);
    assert_eq!(fp.hash(), format!("{:x}", h.finish()));
}

#[test]
fn fingerprint_hash_skips_absent_fields() {
    let mut fp = fingerprint(None);
    fp.screen_resolution = None;
    let mut h = DefaultHasher::new();
    fp.user_agent.hash(&mut h);
    fp.language.as_ref().unwrap().hash(&mut h);
    fp.platform.as_ref().unwrap().hash(&mut h);
    fp.canvas_hash.as_ref().unwrap().hash(&mut h);
    assert_eq!(fp.hash(), format!("{:x}", h.finish()));
    assert_ne!(fp.hash(), fingerprint(None).hash());
}

#[test]
fn fingerprint_match_points_of_identical_prints() {
    let a = fingerprint(Some(60));
    let b = fingerprint(Some(60));
    assert_eq!(a.match_points(&b), 11);
    let mut c = fingerprint(Some(120));
    c.user_agent = "curl/8".to_string();
    assert_eq!(a.match_points(&c), 7);
}
