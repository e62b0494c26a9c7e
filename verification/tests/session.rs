use auth_service::domain::session::{DeviceFingerprint, Session, SessionState};
use auth_service::domain::user::{User, UserType};
use auth_service::ids::{now_micros, DeviceId, IpAddress, TokenId, UserId, MICROS_PER_SECOND};
use auth_service::revocation::store::{RevocationReason, RevokedToken};

fn mock_fingerprint() -> DeviceFingerprint {
    DeviceFingerprint {
        user_agent: "Mozilla/5.0".to_string(),
        screen_resolution: Some("1920x1080".to_string()),
        timezone_offset: Some(-300),
        language: Some("en-US".to_string()),
        platform: Some("Linux".to_string()),
        canvas_hash: Some("abc123".to_string()),
        webgl_renderer: None,
        fonts_hash: None,
        hardware_concurrency: Some(8),
        device_memory: Some(16),
        custom_attributes: Vec::new(),
    }
}

fn localhost() -> IpAddress {
    IpAddress::V4(0x7f00_0001)
}

#[test]
fn test_session_creation() {
    let user_id = UserId::new();
    let device_id = DeviceId::new();
    let session = Session::new(user_id, device_id, localhost(), mock_fingerprint(), 3600).unwrap();
    assert_eq!(session.user_id, user_id);
    assert_eq!(session.device_id, device_id);
    assert_eq!(session.state, SessionState::Active);
    assert!(session.is_valid());
}

#[test]
fn test_session_expiration() {
    let session = Session::new(UserId::new(), DeviceId::new(), localhost(), mock_fingerprint(), -100).unwrap();
    assert!(session.is_expired());
    assert!(!session.is_valid());
}

#[test]
fn test_session_touch() {
    let mut session = Session::new(UserId::new(), DeviceId::new(), localhost(), mock_fingerprint(), 3600).unwrap();
    let original = session.last_accessed_at;
    session.touch_at(original + 10_000);
    assert!(session.last_accessed_at > original);
    assert_eq!(session.last_accessed_at, original + 10_000);
}

#[test]
fn test_session_risk_score() {
    let mut session = Session::new(UserId::new(), DeviceId::new(), localhost(), mock_fingerprint(), 3600).unwrap();
    session.apply_risk_assessment(false);
    assert_eq!(session.state, SessionState::Active);
    session.apply_risk_assessment(true);
    assert_eq!(session.state, SessionState::PendingRiskCheck);
}

#[test]
fn test_session_failed_auth_attempts() {
    let mut session = Session::new(UserId::new(), DeviceId::new(), localhost(), mock_fingerprint(), 3600).unwrap();
    session.record_failed_auth();
    session.record_failed_auth();
    assert_eq!(session.state, SessionState::Active);
    session.record_failed_auth();
    assert_eq!(session.state, SessionState::Suspicious);
}

#[test]
fn session_expiry_is_ttl_after_creation() {
    let session = Session::new_at(
        auth_service::ids::SessionId(7),
        UserId(1),
        DeviceId(2),
        localhost(),
        mock_fingerprint(),
        60,
        1_000,
    );
    assert_eq!(session.expires_at, 1_000 + 60 * MICROS_PER_SECOND);
    assert!(!session.is_expired_at(1_000 + 60 * MICROS_PER_SECOND));
    assert!(session.is_expired_at(1_001 + 60 * MICROS_PER_SECOND));
    assert!(session.is_idle_at(10, 1_000 + 11 * MICROS_PER_SECOND));
    assert!(!session.is_idle_at(10, 1_000 + 10 * MICROS_PER_SECOND));
}

#[test]
fn session_with_unrepresentable_ttl_is_refused() {
    assert!(Session::new(UserId::new(), DeviceId::new(), localhost(), mock_fingerprint(), i64::MAX).is_none());
}

#[test]
fn session_step_up_follows_verified_factors() {
    let mut session = Session::new(UserId::new(), DeviceId::new(), localhost(), mock_fingerprint(), 3600).unwrap();
    assert!(session.requires_stepup(true, false));
    session.mfa_verified = true;
    assert!(!session.requires_stepup(true, false));
    assert!(session.requires_stepup(true, true));
    assert!(session.ip_changed(IpAddress::V4(0x0a00_0001)));
    assert!(!session.ip_changed(localhost()));
}

#[test]
fn test_user_active_status() {
    let now = now_micros();
    let mut user = User {
        id: UserId::new(),
        user_type: UserType::RetailBasic,
        email: "test@example.com".to_string(),
        created_at: now,
        last_login: None,
        mfa_enabled: false,
        webauthn_enabled: false,
        account_locked: false,
        lockout_until: None,
        failed_login_attempts: 0,
        password_changed_at: now,
        must_change_password: false,
    };
    assert!(user.is_active());
    user.account_locked = true;
    assert!(!user.is_active());
}

#[test]
fn test_revoked_token_cleanup_eligible() {
    let expires_at = now_micros() - 3600 * MICROS_PER_SECOND;
    let revoked = RevokedToken::new(TokenId::new(), UserId::new(), RevocationReason::Expiration, expires_at, None);
    assert!(revoked.can_cleanup());
}
