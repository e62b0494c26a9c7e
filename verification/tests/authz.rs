use auth_service::authz::abac::{
    AbacPolicy, Condition, ConditionOperator, EvaluationContext, EvaluationResult, PolicyEffect, PolicyEvaluator,
    PolicyRule,
};
use auth_service::authz::checker::PermissionChecker;
use auth_service::authz::policy::{CombinedPolicy, PolicyDecision, PolicyEngine};
use auth_service::authz::rbac::{RoleDefinition, RoleHierarchy, RoleManager};
use auth_service::authz::types::{Action, AuthzContext, AuthzError, Permission, Resource, ResourceType, Role, Subject};
use auth_service::authz::value::{AttrMap, AttrValue};
use auth_service::domain::user::UserDomain;
use auth_service::ids::UserId;

#[test]
fn test_condition_equals() {
    let condition = Condition::new(
        "subject.domain".to_string(),
        ConditionOperator::Equals,
        AttrValue::Str("Retail".to_string()),
    );
    let mut subject_attrs = AttrMap::new();
    subject_attrs.insert("domain".to_string(), AttrValue::Str("Retail".to_string()));
    let context = EvaluationContext {
        subject_attributes: subject_attrs,
        resource_attributes: AttrMap::new(),
        environment_attributes: AttrMap::new(),
    };
    assert!(condition.evaluate(&context));
}

#[test]
fn test_condition_greater_than() {
    let condition = Condition::new("resource.amount".to_string(), ConditionOperator::GreaterThan, AttrValue::Number(1000));
    let mut resource_attrs = AttrMap::new();
    resource_attrs.insert("amount".to_string(), AttrValue::Number(2000));
    let context = EvaluationContext {
        subject_attributes: AttrMap::new(),
        resource_attributes: resource_attrs,
        environment_attributes: AttrMap::new(),
    };
    assert!(condition.evaluate(&context));
}

#[test]
fn test_policy_evaluation() {
    let user_id = UserId::new();
    let subject = Subject::new(user_id, UserDomain::Retail);
    let resource = Resource::new(ResourceType::Order).with_owner(user_id);
    let context = AuthzContext::new(subject, Action::Update, resource);
    let evaluator = PolicyEvaluator::new(AbacPolicy::default_policy());
    let result = evaluator.evaluate(&context).unwrap();
    assert!(matches!(result, EvaluationResult::NotApplicable | EvaluationResult::Allow));
}

#[test]
fn test_maintenance_mode_deny() {
    let subject = Subject::new(UserId::new(), UserDomain::Retail);
    let resource = Resource::new(ResourceType::Order);
    let context = AuthzContext::new(subject, Action::Create, resource)
        .with_env("maintenance_mode".to_string(), AttrValue::Bool(true));
    let evaluator = PolicyEvaluator::new(AbacPolicy::default_policy());
    let result = evaluator.evaluate(&context).unwrap();
    assert_eq!(result, EvaluationResult::Deny);
}

#[test]
fn test_role_definition() {
    let role = Role::new("test_role".to_string(), UserDomain::Retail);
    let perm = Permission::new(ResourceType::Order, Action::Read);
    let definition = RoleDefinition::new(role.clone())
        .add_permission(perm.clone())
        .with_description("Test role".to_string());
    assert_eq!(definition.role, role);
    assert!(definition.permissions.contains(&perm));
    assert_eq!(definition.description, Some("Test role".to_string()));
}

#[test]
fn test_circular_dependency_detection() {
    let mut hierarchy = RoleHierarchy::new();
    let role_a = Role::new("role_a".to_string(), UserDomain::Retail);
    let role_b = Role::new("role_b".to_string(), UserDomain::Retail);
    hierarchy.add_role(RoleDefinition::new(role_a.clone()).inherit_from(role_b.clone())).unwrap();
    let result = hierarchy.add_role(RoleDefinition::new(role_b).inherit_from(role_a));
    assert!(matches!(result, Err(AuthzError::CircularDependency)));
}

#[test]
fn test_role_manager() {
    let mut manager = RoleManager::new();
    let user_id = "user-123".to_string();
    manager.assign_role(user_id.clone(), Role::retail_trader());
    manager.assign_role(user_id.clone(), Role::compliance());
    assert_eq!(manager.get_user_roles(&user_id).len(), 2);
    assert!(manager.has_role(&user_id, &Role::retail_trader()));
    manager.revoke_role(&user_id, &Role::retail_trader());
    assert_eq!(manager.get_user_roles(&user_id).len(), 1);
    assert!(!manager.has_role(&user_id, &Role::retail_trader()));
}

#[test]
fn role_manager_keeps_repeated_assignments() {
    let mut manager = RoleManager::new();
    manager.assign_role("u".to_string(), Role::admin());
    manager.assign_role("u".to_string(), Role::admin());
    assert_eq!(manager.get_user_roles("u").len(), 2);
    manager.revoke_role("u", &Role::admin());
    assert!(manager.get_user_roles("u").is_empty());
    assert!(manager.get_user_roles("nobody").is_empty());
}

#[test]
fn test_resource_builder() {
    let resource = Resource::new(ResourceType::Order)
        .with_id("order-123".to_string())
        .with_owner(UserId::new())
        .with_attribute("status".to_string(), AttrValue::Str("pending".to_string()));
    assert_eq!(resource.resource_type, ResourceType::Order);
    assert_eq!(resource.resource_id, Some("order-123".to_string()));
    assert!(resource.owner_id.is_some());
    assert!(matches!(resource.attributes.get("status"), Some(AttrValue::Str(s)) if s == "pending"));
}

#[test]
fn test_subject_roles() {
    let subject = Subject::new(UserId::new(), UserDomain::Retail)
        .with_role(Role::retail_trader())
        .with_role(Role::new("risk_manager".to_string(), UserDomain::Retail));
    assert!(subject.has_role(&Role::retail_trader()));
    assert!(subject.has_role_name("risk_manager"));
    assert!(!subject.has_role_name("admin"));
}

#[test]
fn permission_text_forms() {
    let p = Permission::new(ResourceType::AuditLog, Action::Export);
    let text = p.to_string();
    assert_eq!(text, "audit_log:export");
    assert_eq!(Permission::from_string("audit_log:export").unwrap(), p);
    assert_eq!(Permission::from_string(&text).unwrap(), p);
    assert_eq!(Permission::new(ResourceType::Order, Action::Read).to_string(), "order:read");
    assert_eq!(Permission::new(ResourceType::MarketData, Action::Cancel).to_string(), "market_data:cancel");
    assert!(Permission::from_string("no-colon").is_err());
}

#[test]
fn permission_text_roundtrip_custom_parts() {
    let p = Permission::new(ResourceType::Custom("ledger".to_string()), Action::Custom("reconcile".to_string()));
    assert_eq!(p.to_string(), "ledger:reconcile");
    assert_eq!(Permission::from_string(&p.to_string()).unwrap(), p);
    let q = Permission::new(ResourceType::Custom("a:b".to_string()), Action::Read);
    assert_eq!(q.to_string(), "a:b:read");
    assert!(Permission::from_string(&q.to_string()).is_err());
}

#[test]
fn compliance_cannot_create_orders() {
    let combined = CombinedPolicy::default_policy().unwrap();
    let subject = Subject::new(UserId::new(), UserDomain::Compliance).with_role(Role::compliance());
    let context = AuthzContext::new(subject, Action::Create, Resource::new(ResourceType::Order));
    assert_eq!(combined.evaluate(&context).unwrap(), PolicyDecision::Deny);
}

#[test]
fn trader_can_create_orders() {
    let combined = CombinedPolicy::default_policy().unwrap();
    let subject = Subject::new(UserId::new(), UserDomain::Retail).with_role(Role::retail_trader());
    let context = AuthzContext::new(subject, Action::Create, Resource::new(ResourceType::Order));
    assert_eq!(combined.evaluate(&context).unwrap(), PolicyDecision::Allow);
}

#[test]
fn maintenance_denies_even_admins() {
    let combined = CombinedPolicy::default_policy().unwrap();
    let subject = Subject::new(UserId::new(), UserDomain::Admin).with_role(Role::admin());
    let context = AuthzContext::new(subject, Action::Create, Resource::new(ResourceType::Order))
        .with_env("maintenance_mode".to_string(), AttrValue::Bool(true));
    assert_eq!(combined.evaluate(&context).unwrap(), PolicyDecision::Deny);
}

#[test]
fn policy_engine_require() {
    let engine = PolicyEngine::with_default_store().unwrap();
    let admin = Subject::new(UserId::new(), UserDomain::Admin).with_role(Role::admin());
    let context = AuthzContext::new(admin, Action::Update, Resource::new(ResourceType::Config));
    assert!(engine.is_allowed(&context).unwrap());
    let compliance = Subject::new(UserId::new(), UserDomain::Compliance).with_role(Role::compliance());
    let context = AuthzContext::new(compliance, Action::Delete, Resource::new(ResourceType::Order));
    assert!(matches!(engine.require(&context), Err(AuthzError::AccessDenied)));
}

#[test]
fn permission_checker_checks() {
    let checker = PermissionChecker::with_default_engine().unwrap();
    let admin = Subject::new(UserId::new(), UserDomain::Admin).with_role(Role::admin());
    assert!(checker.check(&admin, Action::Delete, Resource::new(ResourceType::User)).unwrap());
    let compliance = Subject::new(UserId::new(), UserDomain::Compliance).with_role(Role::compliance());
    assert!(!checker.check(&compliance, Action::Delete, Resource::new(ResourceType::Order)).unwrap());
    assert!(matches!(
        checker.require(&compliance, Action::Delete, Resource::new(ResourceType::Order)),
        Err(AuthzError::AccessDenied)
    ));
    let batch = checker
        .check_batch(
            &admin,
            vec![
                (Action::Delete, Resource::new(ResourceType::User)),
                (Action::Read, Resource::new(ResourceType::AuditLog)),
            ],
        )
        .unwrap();
    assert_eq!(batch.len(), 2);
}

#[test]
fn allowed_actions_follow_roles() {
    let checker = PermissionChecker::with_default_engine().unwrap();
    let compliance = Subject::new(UserId::new(), UserDomain::Compliance).with_role(Role::compliance());
    let actions = checker.get_allowed_actions(&compliance, ResourceType::AuditLog).unwrap();
    assert!(actions.contains(&Action::Read));
    assert!(!actions.contains(&Action::Delete));
    let nobody = Subject::new(UserId::new(), UserDomain::Retail);
    assert!(checker.get_allowed_actions(&nobody, ResourceType::Order).unwrap().is_empty());
}

#[test]
fn diamond_inheritance_is_not_a_cycle() {
    let r = |n: &str| Role::new(n.to_string(), UserDomain::Retail);
    let mut hierarchy = RoleHierarchy::new();
    hierarchy
        .add_role(RoleDefinition::new(r("d")).add_permission(Permission::new(ResourceType::Order, Action::Read)))
        .unwrap();
    hierarchy
        .add_role(
            RoleDefinition::new(r("b"))
                .add_permission(Permission::new(ResourceType::Account, Action::Read))
                .inherit_from(r("d")),
        )
        .unwrap();
    hierarchy
        .add_role(
            RoleDefinition::new(r("c"))
                .add_permission(Permission::new(ResourceType::Position, Action::Read))
                .inherit_from(r("d")),
        )
        .unwrap();
    let added = hierarchy.add_role(
        RoleDefinition::new(r("a"))
            .add_permission(Permission::new(ResourceType::Config, Action::Read))
            .inherit_from(r("b"))
            .inherit_from(r("c")),
    );
    assert!(added.is_ok());
    assert!(hierarchy.get_role(&r("a")).is_some());
    let perms = hierarchy.get_all_permissions(&r("a")).unwrap();
    assert_eq!(perms.len(), 4);
    for p in [
        Permission::new(ResourceType::Order, Action::Read),
        Permission::new(ResourceType::Account, Action::Read),
        Permission::new(ResourceType::Position, Action::Read),
        Permission::new(ResourceType::Config, Action::Read),
    ] {
        assert!(perms.contains(&p));
    }
}

#[test]
fn longer_cycle_is_refused() {
    let r = |n: &str| Role::new(n.to_string(), UserDomain::Retail);
    let mut hierarchy = RoleHierarchy::new();
    hierarchy.add_role(RoleDefinition::new(r("x")).inherit_from(r("y"))).unwrap();
    hierarchy.add_role(RoleDefinition::new(r("y")).inherit_from(r("z"))).unwrap();
    let result = hierarchy.add_role(RoleDefinition::new(r("z")).inherit_from(r("x")));
    assert!(matches!(result, Err(AuthzError::CircularDependency)));
    assert!(hierarchy.get_role(&r("z")).is_none());
}

#[test]
fn exists_and_not_exists_conditions() {
    let mut subject_attrs = AttrMap::new();
    subject_attrs.insert("domain".to_string(), AttrValue::Str("Retail".to_string()));
    let context = EvaluationContext {
        subject_attributes: subject_attrs,
        resource_attributes: AttrMap::new(),
        environment_attributes: AttrMap::new(),
    };
    let present_not = Condition::new("subject.domain".to_string(), ConditionOperator::NotExists, AttrValue::Null);
    let present_exists = Condition::new("subject.domain".to_string(), ConditionOperator::Exists, AttrValue::Null);
    let absent_not = Condition::new("subject.team".to_string(), ConditionOperator::NotExists, AttrValue::Null);
    let absent_exists = Condition::new("subject.team".to_string(), ConditionOperator::Exists, AttrValue::Null);
    assert!(!present_not.evaluate(&context));
    assert!(present_exists.evaluate(&context));
    assert!(absent_not.evaluate(&context));
    assert!(!absent_exists.evaluate(&context));
}

#[test]
fn get_role_keeps_the_description() {
    let mut hierarchy = RoleHierarchy::new();
    let role = Role::new("auditor".to_string(), UserDomain::Compliance);
    hierarchy
        .add_role(RoleDefinition::new(role.clone()).with_description("Reads the audit log".to_string()))
        .unwrap();
    let d = hierarchy.get_role(&role).unwrap();
    assert_eq!(d.description.as_deref(), Some("Reads the audit log"));
}

#[test]
fn abac_outcome_does_not_depend_on_rule_order() {
    let allow = || PolicyRule::new("allow-all".to_string(), PolicyEffect::Allow);
    let deny = || PolicyRule::new("deny-all".to_string(), PolicyEffect::Deny);
    let context = AuthzContext::new(
        Subject::new(UserId::new(), UserDomain::Retail),
        Action::Read,
        Resource::new(ResourceType::Order),
    );
    let first = PolicyEvaluator::new(AbacPolicy::new().add_rule(allow()).add_rule(deny()));
    let second = PolicyEvaluator::new(AbacPolicy::new().add_rule(deny()).add_rule(allow()));
    assert_eq!(first.evaluate(&context).unwrap(), EvaluationResult::Deny);
    assert_eq!(second.evaluate(&context).unwrap(), EvaluationResult::Deny);
    let only_allow = PolicyEvaluator::new(AbacPolicy::new().add_rule(allow()));
    assert_eq!(only_allow.evaluate(&context).unwrap(), EvaluationResult::Allow);
    let empty = PolicyEvaluator::new(AbacPolicy::new());
    assert_eq!(empty.evaluate(&context).unwrap(), EvaluationResult::NotApplicable);
}
