use auth_service::domain::claims::{AccessClaims, ClaimScope, RefreshClaims, StandardClaims};
use auth_service::domain::token::{AccessToken, RefreshToken, RevocationReason, TokenRevocation};
use auth_service::domain::user::UserDomain;
use auth_service::ids::{now_micros, DeviceId, SessionId, TokenId, UserId};

const HOUR: i64 = 3_600_000_000;

#[test]
fn test_standard_claims_validation() {
    let now = now_micros();
    let claims = StandardClaims::new(
        "test-issuer".to_string(),
        UserId::new(),
        vec!["test-audience".to_string()],
        TokenId::new(),
        now,
        now + HOUR,
    );

    assert!(claims.validate("test-issuer", "test-audience").is_ok());
    assert!(claims.validate("wrong-issuer", "test-audience").is_err());
    assert!(claims.validate("test-issuer", "wrong-audience").is_err());
}

#[test]
fn standard_claims_validate_at_fixed_times() {
    let claims = StandardClaims::new(
        "iss".to_string(),
        UserId(7),
        vec!["aud".to_string()],
        TokenId(9),
        1_000_000_000,
        4_600_000_000,
    );
    assert_eq!(claims.exp, 4600);
    assert_eq!(claims.nbf, 1000);
    assert!(claims.validate_at("iss", "aud", 2000).is_ok());
    assert!(claims.validate_at("iss", "aud", 4600).is_err());
    assert!(claims.validate_at("iss", "aud", 999).is_err());
}

#[test]
fn test_access_claims_scope_checking() {
    let now = now_micros();
    let standard = StandardClaims::new(
        "test".to_string(),
        UserId::new(),
        vec!["test".to_string()],
        TokenId::new(),
        now,
        now + 900_000_000,
    );

    let claims = AccessClaims {
        standard,
        domain: UserDomain::Retail,
        device_id: DeviceId::new().to_string(),
        session_id: SessionId::new().to_string(),
        scopes: vec![ClaimScope::TradeRead, ClaimScope::TradeWrite],
        nonce: "test-nonce".to_string(),
        kid: "key-1".to_string(),
        ip: "127.0.0.1".to_string(),
        mfa_verified: false,
        webauthn_verified: false,
        token_version: 1,
    };

    assert!(claims.has_scope(&ClaimScope::TradeRead));
    assert!(!claims.has_scope(&ClaimScope::AdminUsers));
    assert!(claims.has_all_scopes(&[ClaimScope::TradeRead, ClaimScope::TradeWrite]));
    assert!(!claims.has_all_scopes(&[ClaimScope::TradeRead, ClaimScope::AdminUsers]));
    assert!(claims.has_any_scope(&[ClaimScope::AdminUsers, ClaimScope::TradeWrite]));
}

#[test]
fn test_refresh_claims_rotation() {
    let now = now_micros();
    let standard = StandardClaims::new(
        "test".to_string(),
        UserId::new(),
        vec!["test".to_string()],
        TokenId::new(),
        now,
        now + 30 * 24 * HOUR,
    );

    let claims = RefreshClaims {
        standard,
        domain: UserDomain::Retail,
        device_id: DeviceId::new().to_string(),
        session_id: SessionId::new().to_string(),
        kid: "key-1".to_string(),
        parent_jti: None,
        generation: 0,
        rotation_count: 5,
        max_rotations: 10,
        token_version: 1,
    };

    assert!(claims.can_rotate());

    let mut exhausted = claims.clone();
    exhausted.rotation_count = 10;
    assert!(!exhausted.can_rotate());
}

#[test]
fn test_access_token_expiration() {
    let now = now_micros();
    let token = AccessToken {
        jti: TokenId::new(),
        user_id: UserId::new(),
        device_id: DeviceId::new(),
        issued_at: now - 100_000_000,
        expires_at: now + 900_000_000,
        nonce: "test-nonce".to_string(),
        algorithm: "RS256".to_string(),
        key_id: "key-1".to_string(),
    };

    assert!(!token.is_expired());
    assert!(token.is_valid());
}

fn refresh_token(rotation_count: u32, max_rotations: u32) -> RefreshToken {
    let now = now_micros();
    RefreshToken {
        jti: TokenId::new(),
        user_id: UserId::new(),
        device_id: DeviceId::new(),
        issued_at: now,
        expires_at: now + 30 * 24 * HOUR,
        parent_jti: None,
        generation: 0,
        max_rotations,
        rotation_count,
        algorithm: "RS256".to_string(),
        key_id: "key-1".to_string(),
    }
}

#[test]
fn test_refresh_token_rotation() {
    let token = refresh_token(0, 10);
    assert!(token.can_rotate());

    let rotated = token.rotate(TokenId::new(), 2592000).unwrap();
    assert_eq!(rotated.generation, 1);
    assert_eq!(rotated.rotation_count, 1);
    assert_eq!(rotated.parent_jti, Some(token.jti));
    assert_eq!(rotated.expires_at - rotated.issued_at, 2_592_000_000_000);
}

#[test]
fn test_refresh_token_max_rotations() {
    let mut token = refresh_token(3, 3);
    assert!(!token.can_rotate());

    token.rotation_count = 2;
    assert!(token.can_rotate());
}

#[test]
fn refresh_token_rotate_at_fixed_time() {
    let token = refresh_token(0, 10);
    let rotated = token.rotate_at(TokenId(5), 60, 1_000_000);
    assert_eq!(rotated.issued_at, 1_000_000);
    assert_eq!(rotated.expires_at, 61_000_000);
    assert_eq!(rotated.jti, TokenId(5));
}

#[test]
fn test_token_revocation_cleanup() {
    let now = now_micros();
    let revocation = TokenRevocation {
        jti: TokenId::new(),
        user_id: UserId::new(),
        revoked_at: now - 24 * HOUR,
        reason: RevocationReason::UserLogout,
        revoked_by: None,
        original_expires_at: now - 1_000_000,
    };

    assert!(revocation.can_cleanup());
    assert!(!revocation.can_cleanup_at(now - 2_000_000));
}
