use auth_service::crypto::key_manager::{KeyManager, KeyRotationPolicy};
use auth_service::crypto::kms::{KmsClientTrait, KmsConfig, KmsError, MockKmsClient};
use auth_service::crypto::signer::MockSigner;
use auth_service::ids::{IpAddress, TokenId, UserId, DeviceId};
use auth_service::journal::InMemoryJournal;
use auth_service::revocation::redis_store::RedisRevocationStore;
use auth_service::revocation::store::{reason_to_string, string_to_reason, RevocationReason, RevokedToken};
use auth_service::risk::adaptive_policy::{
    decide_step_up, AuthenticationRequirement, DeviceFacts, StepUpReason, StepUpSettings, ThresholdsReached,
};
use auth_service::risk::anomaly::{detect_anomalies, AnomalyType, AttemptFacts};
use auth_service::risk::behavioral::UserBehavior;
use auth_service::risk::velocity::{LoginAttempts, VELOCITY_WINDOW_MICROS};

const DAY: i64 = 86_400_000_000;
const SEC: i64 = 1_000_000;

#[test]
fn test_mock_kms_client_sign() {
    let mut client = MockKmsClient::new();
    let signature = client.sign("test-key", b"message").unwrap();
    assert_eq!(signature, vec![1, 2, 3, 4]);
    assert_eq!(client.sign("test-key", b"again").unwrap(), vec![1, 2, 3, 4]);
    let mut failing = MockKmsClient::new().with_response(Err(KmsError::InvalidKeyId));
    assert!(matches!(failing.sign("k", b"m"), Err(KmsError::InvalidKeyId)));
}

#[test]
fn test_mock_kms_client_get_public_key() {
    let client = MockKmsClient::new();
    assert_eq!(client.get_public_key("test-key").unwrap().len(), 32);
}

#[test]
fn test_mock_kms_client_list_keys() {
    let client = MockKmsClient::new();
    assert_eq!(client.list_keys().unwrap().len(), 2);
}

#[test]
fn test_mock_kms_client_key_exists() {
    let client = MockKmsClient::new();
    assert!(client.key_exists("test-key-1").unwrap());
    assert!(!client.key_exists("invalid-key").unwrap());
}

#[test]
fn test_kms_config_default() {
    let config = KmsConfig::default();
    assert_eq!(config.signing_algorithm, "RSASSA_PKCS1_V1_5_SHA_256");
}

#[test]
fn test_kms_client_key_ids() {
    let config = KmsConfig {
        region: "us-east-1".to_string(),
        jwt_signing_key_id: "key-1".to_string(),
        jwt_signing_key_id_previous: Some("key-0".to_string()),
        signing_algorithm: "RSASSA_PKCS1_V1_5_SHA_256".to_string(),
    };
    assert_eq!(config.current_key_id(), "key-1");
    assert_eq!(config.previous_key_id(), Some("key-0"));
    assert_eq!(config.valid_key_ids(), vec!["key-1", "key-0"]);
}

#[test]
fn key_rotation_keeps_old_key_valid_until_grace_ends() {
    let now = 1_700_000_000 * SEC;
    let policy = KeyRotationPolicy::default();
    let mut manager = KeyManager::new_at("test-key-1".to_string(), policy, now);
    assert_eq!(manager.get_active_key_id(), "test-key-1");
    let meta = manager.get_key_metadata("test-key-1").unwrap();
    assert_eq!(meta.version, 1);
    assert!(meta.is_active);
    assert!(!meta.should_rotate_at(now));

    let client = MockKmsClient::new();
    manager.rotate_key(&client, "test-key-2".to_string(), now + DAY).unwrap();
    assert_eq!(manager.get_active_key_id(), "test-key-2");
    assert!(manager.is_valid_key_at("test-key-1", now + DAY));
    assert!(manager.is_valid_key_at("test-key-2", now + DAY));
    assert!(!manager.get_key_metadata("test-key-1").unwrap().is_active);
    assert_eq!(manager.get_key_metadata("test-key-2").unwrap().version, 2);
    assert_eq!(manager.get_valid_keys_at(now + DAY).len(), 2);

    assert!(matches!(
        manager.rotate_key(&client, "unknown".to_string(), now + DAY),
        Err(KmsError::KeyNotFound(k)) if k == "unknown"
    ));
    assert_eq!(manager.get_active_key_id(), "test-key-2");

    let stats = manager.get_stats_at(now + DAY);
    assert_eq!(stats.total_keys, 2);
    assert_eq!(stats.valid_keys, 2);
    assert_eq!(stats.expired_keys, 0);
    assert_eq!(stats.active_key_id, "test-key-2");
    assert_eq!(stats.active_key_age_days, Some(0));
}

#[test]
fn expired_keys_are_removed() {
    let now = 1_700_000_000 * SEC;
    let policy = KeyRotationPolicy::default();
    let mut manager = KeyManager::new_at("k1".to_string(), policy.clone(), now);
    let client = MockKmsClient::new();
    manager.rotate_key(&client, "test-key-2".to_string(), now + DAY).unwrap();
    let k1 = manager.get_key_metadata("k1").unwrap();
    assert!(manager.check_rotation_at(now + DAY + policy.rotation_interval_days * DAY));
    assert_eq!(manager.cleanup_expired_keys_at(k1.expires_at), 1);
    assert!(manager.get_key_metadata("k1").is_none());
    assert!(!manager.is_valid_key_at("k1", k1.expires_at));
}

#[test]
fn mock_signer_signs_with_sha256() {
    let signer = MockSigner::new("key-9".to_string());
    let sig = signer.sign(b"abc");
    assert_eq!(sig.key_id, "key-9");
    assert_eq!(sig.bytes.len(), 32);
    assert_eq!(sig.bytes[0], 0xba);
}

#[test]
fn journal_assigns_sequence_numbers() {
    let mut journal: InMemoryJournal<String> = InMemoryJournal::new();
    for i in 0..10u64 {
        assert_eq!(journal.append(&format!("event-{}", i)).unwrap(), i);
    }
    assert_eq!(journal.current_sequence().unwrap(), 10);
    let events = journal.read_range(3, 7).unwrap();
    assert_eq!(events.len(), 4);
    assert_eq!(events[0], "event-3");
    assert_eq!(events[3], "event-6");
    assert_eq!(journal.read_range(8, 20).unwrap().len(), 2);
    assert_eq!(journal.read_from(12).unwrap().len(), 0);
    assert_eq!(journal.replay_all().unwrap().len(), 10);
    assert!(journal.flush().is_ok());
}

#[test]
fn login_velocity_window() {
    let mut attempts = LoginAttempts::new();
    let t0 = 10 * VELOCITY_WINDOW_MICROS;
    attempts.record_attempt_at(UserId(1), t0);
    attempts.record_attempt_at(UserId(1), t0 + 10 * SEC);
    attempts.record_attempt_at(UserId(2), t0 + 20 * SEC);
    assert_eq!(attempts.get_login_attempts(UserId(1)), 2);
    assert!(attempts.is_velocity_high(UserId(1), 1));
    assert!(!attempts.is_velocity_high(UserId(1), 2));
    attempts.record_attempt_at(UserId(1), t0 + VELOCITY_WINDOW_MICROS + 5 * SEC);
    assert_eq!(attempts.get_login_attempts(UserId(1)), 2);
    attempts.cleanup_old_attempts_at(t0 + VELOCITY_WINDOW_MICROS + 30 * SEC);
    assert_eq!(attempts.get_login_attempts(UserId(2)), 0);
    assert_eq!(attempts.get_login_attempts(UserId(1)), 1);
    assert_eq!(attempts.get_login_attempts(UserId(3)), 0);
}

#[test]
fn test_reason_conversion() {
    let reason = RevocationReason::PasswordChange;
    let text = reason_to_string(reason);
    assert_eq!(text, "password_change");
    assert_eq!(string_to_reason(&text), reason);
}

#[test]
fn test_all_reasons_convert() {
    let reasons = vec![
        RevocationReason::UserLogout,
        RevocationReason::PasswordChange,
        RevocationReason::UserDeactivated,
        RevocationReason::SecurityCompromise,
        RevocationReason::AdminRevocation,
        RevocationReason::Expiration,
        RevocationReason::MaxRotations,
        RevocationReason::SuspiciousActivity,
    ];
    for reason in reasons {
        assert_eq!(string_to_reason(&reason_to_string(reason)), reason);
    }
}

#[test]
fn test_key_generation() {
    let store = RedisRevocationStore::new();
    let jti = TokenId::new();
    let user_id = UserId::new();
    let token_key = store.token_key(&jti);
    assert!(token_key.starts_with("auth:revoked:"));
    assert!(token_key.contains(&jti.to_string()));
    let user_key = store.user_tokens_key(&user_id);
    assert!(user_key.starts_with("auth:user_tokens:"));
    assert!(user_key.contains(&user_id.to_string()));
}

#[test]
fn test_custom_prefixes() {
    let store = RedisRevocationStore::with_prefixes("custom:rev:".to_string(), "custom:user:".to_string());
    let jti = TokenId::new();
    assert!(store.token_key(&jti).starts_with("custom:rev:"));
}

#[test]
fn test_ttl_calculation() {
    let store = RedisRevocationStore::new();
    let now = 1_700_000_000 * SEC;
    assert_eq!(store.calculate_ttl_at(now + 7200 * SEC, now), 7200);
    assert_eq!(store.calculate_ttl_at(now - 3600 * SEC, now), 0);
}

#[test]
fn test_revoked_token_creation() {
    let jti = TokenId::new();
    let user_id = UserId::new();
    let now = 1_700_000_000 * SEC;
    let revoked = RevokedToken::new_at(jti, user_id, RevocationReason::UserLogout, now + 3600 * SEC, Some("Test revocation".to_string()), now);
    assert_eq!(revoked.jti, jti);
    assert_eq!(revoked.user_id, user_id);
    assert_eq!(revoked.reason, RevocationReason::UserLogout);
    assert!(!revoked.can_cleanup_at(now));
    assert!(revoked.can_cleanup_at(now + 3601 * SEC));
}

#[test]
fn test_user_behavior_creation() {
    let behavior = UserBehavior::new(UserId::new());
    assert_eq!(behavior.total_logins, 0);
    assert!(behavior.typical_login_hours.is_empty());
    assert!(behavior.known_ips.is_empty());
}

#[test]
fn test_record_login() {
    let mut behavior = UserBehavior::new_at(UserId(1), 0);
    let timestamp = 1_700_000_000 * SEC;
    let ip = IpAddress::V4(0xC0A80101);
    let device_id = DeviceId(3);
    behavior.record_login(timestamp, ip, device_id, Some("US".to_string()));
    assert_eq!(behavior.total_logins, 1);
    assert!(!behavior.typical_login_hours.is_empty());
    assert!(behavior.is_known_ip(&ip));
    assert!(behavior.is_known_device(&device_id));
    assert!(behavior.is_known_country("US"));
}

#[test]
fn test_typical_hour() {
    let mut behavior = UserBehavior::new_at(UserId(1), 0);
    let timestamp = 1_700_000_000 * SEC;
    behavior.record_login(timestamp, IpAddress::V4(1), DeviceId(1), None);
    let hour = ((1_700_000_000i64 % 86_400) / 3_600) as u8;
    assert!(behavior.is_typical_hour(hour));
    assert!(!behavior.is_typical_hour((hour + 12) % 24));
}

#[test]
fn anomalies_in_order() {
    let facts = AttemptFacts {
        total_logins: 20,
        seconds_since_last_login: Some(30),
        ip_known: false,
        ip_text: "10.0.0.9".to_string(),
        country: Some(("RU".to_string(), false)),
        failed_attempts: 5,
    };
    let found = detect_anomalies(&facts, 5);
    let kinds: Vec<AnomalyType> = found.iter().map(|p| p.0).collect();
    assert_eq!(kinds, vec![AnomalyType::HighVelocity, AnomalyType::UnknownIp, AnomalyType::GeographicAnomaly, AnomalyType::BruteForce]);
    let quiet = AttemptFacts { total_logins: 2, seconds_since_last_login: None, ip_known: true, ip_text: "x".to_string(), country: None, failed_attempts: 0 };
    assert!(detect_anomalies(&quiet, 5).is_empty());
}

fn settings() -> StepUpSettings {
    StepUpSettings { require_mfa_new_device: true, require_webauthn_suspicious: true }
}

#[test]
fn step_up_decisions() {
    let none = ThresholdsReached { deny: false, webauthn: false, mfa: false };
    assert!(decide_step_up(none, &[], None, settings()).is_none());
    let mfa = ThresholdsReached { deny: false, webauthn: false, mfa: true };
    assert_eq!(decide_step_up(mfa, &[], None, settings()).unwrap().requirement, AuthenticationRequirement::Mfa);
    let deny = ThresholdsReached { deny: true, webauthn: true, mfa: true };
    let t = decide_step_up(deny, &[AnomalyType::BruteForce], None, settings()).unwrap();
    assert!(t.is_denied());
    assert_eq!(t.reasons, vec![StepUpReason::CriticalRisk]);
    let t = decide_step_up(none, &[AnomalyType::UnknownIp, AnomalyType::ImpossibleTravel, AnomalyType::BruteForce], None, settings()).unwrap();
    assert_eq!(t.requirement, AuthenticationRequirement::WebAuthn);
    assert_eq!(t.reasons, vec![StepUpReason::AnomalyDetected(AnomalyType::ImpossibleTravel), StepUpReason::AnomalyDetected(AnomalyType::BruteForce)]);
    let t = decide_step_up(none, &[AnomalyType::GeographicAnomaly], None, settings()).unwrap();
    assert_eq!(t.requirement, AuthenticationRequirement::Mfa);
    let new_device = DeviceFacts { suspicious: false, successful_auths: 0 };
    let t = decide_step_up(none, &[], Some(new_device), settings()).unwrap();
    assert_eq!(t.reasons, vec![StepUpReason::NewDevice]);
    let suspicious = DeviceFacts { suspicious: true, successful_auths: 4 };
    assert_eq!(decide_step_up(none, &[], Some(suspicious), settings()).unwrap().reasons, vec![StepUpReason::SuspiciousDevice]);
}

#[test]
fn step_up_grows_with_thresholds_reached() {
    let rank = |t: Option<auth_service::risk::adaptive_policy::StepUpTrigger>| match t {
        None => 0u8,
        Some(t) => 1 + t.requirement.rank(),
    };
    let levels = [
        ThresholdsReached { deny: false, webauthn: false, mfa: false },
        ThresholdsReached { deny: false, webauthn: false, mfa: true },
        ThresholdsReached { deny: false, webauthn: true, mfa: true },
        ThresholdsReached { deny: true, webauthn: true, mfa: true },
    ];
    let device = DeviceFacts { suspicious: false, successful_auths: 0 };
    for anomalies in [vec![], vec![AnomalyType::GeographicAnomaly], vec![AnomalyType::BruteForce]] {
        let ranks: Vec<u8> = levels
            .iter()
            .map(|r| rank(decide_step_up(*r, &anomalies, Some(device), settings())))
            .collect();
        for w in ranks.windows(2) {
            assert!(w[0] <= w[1]);
        }
        assert_eq!(ranks[3], 5);
    }
}
