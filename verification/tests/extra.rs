use auth_service::crypto::key_manager::{KeyManager, KeyRotationPolicy};
use auth_service::crypto::kms::KmsError;
use auth_service::domain::token::AccessToken;
use auth_service::ids::{DeviceId, TokenId};
use auth_service::risk::adaptive_policy::{decide_high_value_step_up, AuthenticationRequirement, StepUpReason};
use auth_service::authz::abac::{PolicyEffect, PolicyRule};
use auth_service::authz::policy::PolicyDecision;
use auth_service::authz::rbac::{RbacPolicy, RoleDefinition, RoleHierarchy};
use auth_service::authz::types::{Action, AuthzError, Permission, ResourceType, Role};
use auth_service::domain::user::{User, UserDomain, UserType};
use auth_service::gateway::auth::webauthn_auth_complete;
use auth_service::gateway::rest::{read_order_id, read_user_id};
use auth_service::ids::UserId;
use auth_service::revocation::redis_store::{RedisRevocationStore, USER_SET_GRACE_SECONDS};
use auth_service::webauthn::registration::attestation_of;
use auth_service::webauthn::types::{AssertionResponse, AuthenticatorResponse, WebAuthnError};

#[test]
fn user_token_set_outlives_its_tokens_by_a_day() {
    let store = RedisRevocationStore::new();
    assert_eq!(store.user_set_ttl(3600), 3600 + 86_400);
    assert_eq!(USER_SET_GRACE_SECONDS, 86_400);
}

#[test]
fn path_identifiers_are_read_as_uuids() {
    assert_eq!(read_user_id("00000000-0000-0000-0000-00000000002a"), Ok(UserId(42)));
    assert_eq!(read_user_id("nope"), Err((400, "Invalid user ID".to_string())));
    assert_eq!(read_order_id("00000000-0000-0000-0000-000000000007"), Ok(7));
    assert_eq!(read_order_id(""), Err((400, "Invalid order ID".to_string())));
}

#[test]
fn webauthn_completion_gives_placeholder_tokens() {
    let r = webauthn_auth_complete();
    assert!(r.access_token.starts_with("mock_access_token_"));
    assert_eq!(r.user.email, "webauthn@example.com");
    assert_eq!(r.user.role, "trader");
}

#[test]
fn rule_builders_append() {
    let rule = PolicyRule::new("r".to_string(), PolicyEffect::Deny)
        .add_resource(ResourceType::Order)
        .add_resource(ResourceType::Account)
        .add_action(Action::Create);
    assert_eq!(rule.resources, vec![ResourceType::Order, ResourceType::Account]);
    assert_eq!(rule.actions, vec![Action::Create]);
    assert_eq!(rule.effect, PolicyEffect::Deny);
}

#[test]
fn hierarchy_lookups_and_permissions() {
    let mut hierarchy = RoleHierarchy::new();
    let mut viewer = RoleDefinition::new(Role::new("viewer".to_string(), UserDomain::Retail));
    viewer.permissions.push(Permission::new(ResourceType::MarketData, Action::Read));
    hierarchy.add_role(viewer).unwrap();
    let role = Role::new("viewer".to_string(), UserDomain::Retail);
    assert_eq!(hierarchy.get_role(&role).unwrap().permissions.len(), 1);
    assert!(hierarchy.get_role(&Role::admin()).is_none());
    let policy = RbacPolicy::new(hierarchy);
    let perms = policy.get_permissions(&[role]).unwrap();
    assert_eq!(perms, vec![Permission::new(ResourceType::MarketData, Action::Read)]);
    assert!(matches!(policy.get_permissions(&[Role::admin()]), Err(AuthzError::RoleNotFound(_))));
}

#[test]
fn decisions_become_results() {
    assert!(PolicyDecision::Allow.into_result().is_ok());
    assert!(matches!(PolicyDecision::Deny.into_result(), Err(AuthzError::AccessDenied)));
}

#[test]
fn an_assertion_is_no_attestation() {
    let assertion = AuthenticatorResponse::Assertion(AssertionResponse {
        client_data_json: vec![],
        authenticator_data: vec![],
        signature: vec![],
        user_handle: None,
    });
    assert!(matches!(attestation_of(assertion), Err(WebAuthnError::InvalidAttestation)));
}

#[test]
fn domain_capabilities() {
    assert!(UserDomain::Admin.can_admin());
    assert!(!UserDomain::Compliance.can_admin());
    assert!(UserDomain::Compliance.can_audit());
    assert!(!UserDomain::Retail.can_audit());
    assert_eq!(UserType::RetailBasic.max_session_lifetime(), 86400);
    assert_eq!(UserType::InstitutionalHedgeFund.max_session_lifetime(), 43200);
    assert_eq!(UserType::ServiceAPI.max_session_lifetime(), 0);
}

#[test]
fn users_require_factors_of_their_type_or_choice() {
    let mut user = User {
        id: UserId(1),
        user_type: UserType::RetailBasic,
        email: "a@b.c".to_string(),
        created_at: 0,
        last_login: None,
        mfa_enabled: false,
        webauthn_enabled: false,
        account_locked: false,
        lockout_until: None,
        failed_login_attempts: 0,
        password_changed_at: 0,
        must_change_password: false,
    };
    assert!(!user.should_require_mfa());
    assert!(!user.should_require_webauthn());
    user.mfa_enabled = true;
    assert!(user.should_require_mfa());
    user.user_type = UserType::AdminSuperUser;
    assert!(user.should_require_webauthn());
    assert!(user.is_active_at(0));
    user.lockout_until = Some(10);
    assert!(!user.is_active_at(5));
    assert!(user.is_active_at(10));
}

#[test]
fn high_value_operations_step_up_by_score() {
    assert!(decide_high_value_step_up(false, false).is_none());
    let mfa = decide_high_value_step_up(false, true).unwrap();
    assert_eq!(mfa.requirement, AuthenticationRequirement::Mfa);
    assert_eq!(mfa.reasons, vec![StepUpReason::HighValueOperation]);
    let key = decide_high_value_step_up(true, true).unwrap();
    assert_eq!(key.requirement, AuthenticationRequirement::WebAuthn);
    assert_eq!(key.message, "Hardware security key required for this login.");
}

#[test]
fn rotation_follows_the_services_answer() {
    let now = 1_000_000;
    let mut manager = KeyManager::new_at("k1".to_string(), KeyRotationPolicy::default(), now);
    assert!(matches!(
        manager.rotate_key_if_held(Err(KmsError::InvalidKeyId), "k2".to_string(), now),
        Err(KmsError::InvalidKeyId)
    ));
    assert!(matches!(
        manager.rotate_key_if_held(Ok(false), "k2".to_string(), now),
        Err(KmsError::KeyNotFound(k)) if k == "k2"
    ));
    assert_eq!(manager.get_active_key_id(), "k1");
    assert!(manager.rotate_key_if_held(Ok(true), "k2".to_string(), now).is_ok());
    assert_eq!(manager.get_active_key_id(), "k2");
}

#[test]
fn clock_checks_at_the_ends_of_time() {
    let token = AccessToken {
        jti: TokenId(1),
        user_id: UserId(1),
        device_id: DeviceId(1),
        issued_at: 10,
        expires_at: 5,
        nonce: "n".to_string(),
        algorithm: "RS256".to_string(),
        key_id: "k".to_string(),
    };
    assert!(!token.is_valid());
    let forever = AccessToken { issued_at: i64::MIN, expires_at: i64::MAX, ..token };
    assert!(!forever.is_expired());
    assert!(forever.is_valid());
    assert!(forever.time_until_expiration() > 0);
}
