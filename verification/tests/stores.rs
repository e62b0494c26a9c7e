use auth_service::authz::abac::AbacPolicy;
use auth_service::authz::policy::{InMemoryPolicyStore, PolicyEngine};
use auth_service::authz::rbac::{RbacPolicy, RoleHierarchy};
use auth_service::crypto::key_manager::{KeyManager, KeyRotationPolicy};
use auth_service::ids::{now_micros, TokenId, UserId};
use auth_service::revocation::redis_store::sampled_stats;
use auth_service::revocation::store::{RevocationReason, RevokedToken};

const HOUR: i64 = 3_600_000_000;

fn record(reason: RevocationReason, revoked_at: i64) -> RevokedToken {
    RevokedToken::new_at(TokenId(1), UserId(1), reason, revoked_at + HOUR, None, revoked_at)
}

#[test]
fn sampled_stats_count_recent_records_and_reasons() {
    let now = 100 * HOUR;
    let sample = vec![
        record(RevocationReason::UserLogout, now - HOUR),
        record(RevocationReason::PasswordChange, now - 30 * HOUR),
        record(RevocationReason::UserLogout, now - 24 * HOUR + 1),
        record(RevocationReason::UserLogout, now - 24 * HOUR),
    ];
    let stats = sampled_stats(250, &sample, now);
    assert_eq!(stats.total_revoked, 250);
    assert_eq!(stats.revoked_24h, 2);
    assert_eq!(stats.cleanable, 0);
    assert_eq!(
        stats.by_reason,
        vec![("User logged out".to_string(), 3), ("Password changed".to_string(), 1)]
    );
}

#[test]
fn sampled_stats_of_nothing() {
    let stats = sampled_stats(0, &Vec::new(), 0);
    assert_eq!(stats.revoked_24h, 0);
    assert!(stats.by_reason.is_empty());
}

#[test]
fn policy_store_replaces_each_policy() {
    let mut store = InMemoryPolicyStore::new().unwrap();
    assert_eq!(store.get_abac_policy().rules.len(), 1);
    store.update_abac_policy(AbacPolicy::new());
    assert!(store.get_abac_policy().rules.is_empty());
    store.update_rbac_policy(RbacPolicy::new(RoleHierarchy::new()));
    let engine = PolicyEngine::new(store.into_policy());
    let _ = engine;
    let other = InMemoryPolicyStore::with_policies(RbacPolicy::default_policy().unwrap(), AbacPolicy::default_policy());
    assert_eq!(other.get_abac_policy().rules.len(), 1);
}

#[test]
fn key_manager_by_the_clock() {
    let now = now_micros();
    let mut manager = KeyManager::new_at("k1".to_string(), KeyRotationPolicy::default(), now);
    assert!(manager.is_valid_key("k1"));
    assert!(!manager.is_valid_key("k2"));
    assert!(!manager.check_rotation());
    assert_eq!(manager.get_valid_keys().len(), 1);
    assert_eq!(manager.cleanup_expired_keys(), 0);
    let stats = manager.get_stats();
    assert_eq!(stats.total_keys, 1);
    assert_eq!(stats.valid_keys, 1);
    assert_eq!(stats.active_key_age_days, Some(0));
    let meta = manager.get_key_metadata("k1").unwrap();
    assert!(!meta.should_rotate());
    assert!(!meta.is_expired());
    assert!(meta.is_valid_for_verification());
}
