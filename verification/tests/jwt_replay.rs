use auth_service::domain::claims::{AccessClaims, ClaimScope};
use auth_service::domain::user::UserDomain;
use auth_service::ids::{DeviceId, SessionId, TokenId, UserId};
use auth_service::jwt::encoding::{b64url_decode, b64url_encode};
use auth_service::jwt::generator::{encode_jwt, GeneratorConfig, JwtGenerator};
use auth_service::jwt::validator::{split_token, validate_access_claims, ValidationError, ValidatorConfig};
use auth_service::replay::detector::{ReplayDetector, ReplayDetectorConfig, ReplayError};
use auth_service::replay::nonce_store::{InMemoryNonceStore, NonceStoreError};

const SEC: i64 = 1_000_000;

fn claims_at(now: i64, ttl: i64, nonce: &str) -> AccessClaims {
    let generator = JwtGenerator::new(GeneratorConfig::default());
    generator.access_claims_at(
        UserId(1),
        DeviceId(2),
        SessionId(3),
        UserDomain::Retail,
        vec![ClaimScope::TradeRead],
        "10.0.0.1".to_string(),
        false,
        false,
        nonce.to_string(),
        "key-1".to_string(),
        TokenId(4),
        now,
        ttl,
    )
}

#[test]
fn base64url_round_trip() {
    let data = vec![0u8, 1, 2, 250, 251, 252, 253, 254, 255];
    let text = b64url_encode(&data);
    assert!(!text.contains('='));
    assert!(!text.contains('+') && !text.contains('/'));
    assert_eq!(b64url_decode(&text).unwrap(), data);
    assert_eq!(b64url_encode(b"hi"), "aGk");
    assert!(b64url_decode("!!").is_err());
}

#[test]
fn encoded_token_splits_into_three_segments() {
    let token = encode_jwt(b"{\"alg\":\"RS256\"}", b"{\"sub\":\"x\"}", &[1, 2, 3]);
    let parts = split_token(&token).unwrap();
    assert_eq!(parts.len(), 3);
    assert_eq!(b64url_decode(&parts[2]).unwrap(), vec![1, 2, 3]);
    assert!(matches!(split_token("a.b"), Err(ValidationError::InvalidFormat)));
}

#[test]
fn generated_claims_validate_until_expiry() {
    let now = 1_700_000_000 * SEC;
    let claims = claims_at(now, 900, "n-1");
    assert_eq!(claims.standard.iss, "trading-platform-auth");
    assert_eq!(claims.standard.exp - claims.standard.iat, 900);
    let config = ValidatorConfig::default();
    assert!(validate_access_claims(&config, &claims, 1_700_000_000 + 10).is_ok());
    assert!(matches!(
        validate_access_claims(&config, &claims, 1_700_000_000 + 900 + 301),
        Err(ValidationError::Expired)
    ));
    assert!(matches!(
        validate_access_claims(&config, &claims, 1_700_000_000 - 301),
        Err(ValidationError::NotYetValid)
    ));
    let mut wrong = claims.clone();
    wrong.standard.iss = "other".to_string();
    assert!(matches!(
        validate_access_claims(&config, &wrong, 1_700_000_000),
        Err(ValidationError::InvalidIssuer { .. })
    ));
}

#[test]
fn nonce_is_single_use() {
    let mut store = InMemoryNonceStore::new();
    let now = 1_000 * SEC;
    assert!(store.check_and_store_at("abc", TokenId(1), 60, now).is_ok());
    assert!(matches!(
        store.check_and_store_at("abc", TokenId(2), 60, now + SEC),
        Err(NonceStoreError::NonceAlreadyUsed)
    ));
    assert!(store.check_nonce_at("other", now).is_ok());
    let stats = store.stats_at(now + SEC);
    assert_eq!(stats.total_nonces, 1);
    assert_eq!(stats.replay_attempts, 1);
}

#[test]
fn expired_nonces_are_cleaned_up() {
    let mut store = InMemoryNonceStore::new();
    let now = 1_000 * SEC;
    store.store_nonce_at("a", TokenId(1), 10, now).unwrap();
    store.store_nonce_at("b", TokenId(2), 100, now).unwrap();
    assert_eq!(store.cleanup_expired_at(now + 50 * SEC), 1);
    assert_eq!(store.stats_at(now + 50 * SEC).total_nonces, 1);
}

#[test]
fn replay_detector_rejects_second_use_of_token() {
    let mut detector = ReplayDetector::new(InMemoryNonceStore::new(), ReplayDetectorConfig::default());
    let now = 1_700_000_000 * SEC;
    let claims = claims_at(now, 900, "nonce-1");
    assert!(detector.check_token_at(&claims, now + SEC).is_ok());
    assert!(matches!(detector.check_token_at(&claims, now + 2 * SEC), Err(ReplayError::ReplayDetected(_))));
}

#[test]
fn replay_detector_rejects_old_and_future_tokens() {
    let mut detector = ReplayDetector::new(InMemoryNonceStore::new(), ReplayDetectorConfig::default());
    let now = 1_700_000_000 * SEC;
    let old = claims_at(now - 4000 * SEC, 7200, "n-old");
    assert!(matches!(detector.check_token_at(&old, now), Err(ReplayError::TimestampTooOld(_))));
    let future = claims_at(now + 400 * SEC, 900, "n-future");
    assert!(matches!(detector.check_token_at(&future, now), Err(ReplayError::TimestampInFuture(_))));
}
