use auth_service::authz::rbac::{RbacPolicy, RoleDefinition, RoleHierarchy};
use auth_service::authz::types::{Action, Permission, ResourceType, Role};
use auth_service::domain::user::UserDomain;

#[test]
fn test_role_hierarchy() {
    let mut hierarchy = RoleHierarchy::new();

    let viewer = RoleDefinition::new(Role::new("viewer".to_string(), UserDomain::Retail))
        .add_permission(Permission::new(ResourceType::Order, Action::Read));

    let trader = RoleDefinition::new(Role::retail_trader())
        .add_permission(Permission::new(ResourceType::Order, Action::Create))
        .inherit_from(Role::new("viewer".to_string(), UserDomain::Retail));

    hierarchy.add_role(viewer).unwrap();
    hierarchy.add_role(trader).unwrap();

    let permissions = hierarchy.get_all_permissions(&Role::retail_trader()).unwrap();
    assert_eq!(permissions.len(), 2);
    assert!(permissions.contains(&Permission::new(ResourceType::Order, Action::Read)));
    assert!(permissions.contains(&Permission::new(ResourceType::Order, Action::Create)));
}

#[test]
fn test_default_rbac_policy() {
    let policy = RbacPolicy::default_policy().unwrap();

    assert!(policy.has_permission(&[Role::admin()], &Permission::new(ResourceType::User, Action::Delete)));
    assert!(policy.has_permission(&[Role::retail_trader()], &Permission::new(ResourceType::Order, Action::Create)));
    assert!(!policy.has_permission(&[Role::compliance()], &Permission::new(ResourceType::Order, Action::Create)));
    assert!(policy.has_permission(&[Role::compliance()], &Permission::new(ResourceType::AuditLog, Action::Read)));
}

#[test]
fn test_permission_parsing() {
    let perm = Permission::from_string("order:read").unwrap();
    assert_eq!(perm.resource_type, ResourceType::Order);
    assert_eq!(perm.action, Action::Read);
}

#[test]
fn test_role_equality() {
    let role1 = Role::new("admin".to_string(), UserDomain::Admin);
    let role2 = Role::new("admin".to_string(), UserDomain::Admin);
    let role3 = Role::new("admin".to_string(), UserDomain::Retail);

    assert_eq!(role1, role2);
    assert_ne!(role1, role3);
}
