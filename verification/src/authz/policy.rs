//! Combined decisions: role permissions (RBAC) together with attribute
//! rules (ABAC), where an applicable ABAC deny always wins.
use vstd::prelude::*;
use crate::authz::types::{AuthzError, AuthzContext, Permission, PermissionView, Role, RoleView, Subject, role_views};
use crate::authz::rbac::{RbacPolicy, RoleNode, all_permissions, default_role_map};
use crate::authz::abac::{
    AbacPolicy, EvaluationResult, PolicyEffect, PolicyRule, policy_outcome, eval_view_of, evaluate_rules,
    is_maintenance_rule, rule_fires, lemma_deny_wins,
};
use crate::authz::value::JsonView;
use crate::domain::claims::AccessClaims;
use crate::domain::user::UserDomain;
use crate::ids::{UserId, SessionId, parse_uuid, random_uuid, uuid_parse_value};

verus! {

/// Final authorization decision.
#[derive(Debug, Clone, Copy, PartialEq, Eq, Structural)]
pub enum PolicyDecision {
    Allow,
    Deny,
}

impl PolicyDecision {
    /// Whether the decision allows the access.
    pub fn is_allow(&self) -> (b: bool)
        ensures
            b == (*self == PolicyDecision::Allow),
    {
        match self {
            PolicyDecision::Allow => true,
            PolicyDecision::Deny => false,
        }
    }

    /// `Ok` for an allowed access, `AccessDenied` otherwise.
    pub fn into_result(self) -> (r: Result<(), AuthzError>)
        ensures
            self == PolicyDecision::Allow ==> r is Ok,
            self == PolicyDecision::Deny ==> r matches Err(AuthzError::AccessDenied),
    {
        match self {
            PolicyDecision::Allow => Ok(()),
            PolicyDecision::Deny => Err(AuthzError::AccessDenied),
        }
    }
}

/// Whether one of `roles` holds `p` in the hierarchy `m` (directly or inherited).
pub open spec fn rbac_grants(m: Map<RoleView, RoleNode>, roles: Seq<Role>, p: PermissionView) -> bool {
    exists|i: int| 0 <= i < roles.len() && (#[trigger] all_permissions(m, roles[i]@) matches Ok(ps) && ps.contains(p))
}

/// The combination of the RBAC answer and the ABAC outcome: an ABAC `Deny`
/// denies; otherwise the RBAC answer decides.
pub open spec fn combined_decision(rbac_allowed: bool, abac: EvaluationResult) -> PolicyDecision {
    match abac {
        EvaluationResult::Deny => PolicyDecision::Deny,
        _ => if rbac_allowed { PolicyDecision::Allow } else { PolicyDecision::Deny },
    }
}

/// An access is allowed exactly when a role grants it and ABAC does not deny it.
pub proof fn lemma_allow_iff_granted_and_not_denied(rbac_allowed: bool, abac: EvaluationResult)
    ensures
        combined_decision(rbac_allowed, abac) == PolicyDecision::Allow
            <==> (rbac_allowed && abac != EvaluationResult::Deny),
{
}

/// An applicable ABAC deny rule whose conditions hold makes the combined
/// decision `Deny`, whatever the roles grant.
pub proof fn lemma_abac_deny_overrides_roles(
    rules: Seq<PolicyRule>,
    context: AuthzContext,
    rbac_allowed: bool,
    k: int,
)
    requires
        0 <= k < rules.len(),
        rule_fires(rules[k], context.resource.resource_type@, context.action@, eval_view_of(context)),
        rules[k].effect == PolicyEffect::Deny,
    ensures
        combined_decision(
            rbac_allowed,
            policy_outcome(rules, context.resource.resource_type@, context.action@, eval_view_of(context), false),
        ) == PolicyDecision::Deny,
{
    lemma_deny_wins(rules, context.resource.resource_type@, context.action@, eval_view_of(context), false, k);
}

/// RBAC and ABAC policies decided together.
pub struct CombinedPolicy {
    rbac: RbacPolicy,
    abac: AbacPolicy,
}

impl CombinedPolicy {
    /// The role hierarchy of the RBAC part.
    pub closed spec fn roles(&self) -> Map<RoleView, RoleNode> {
        self.rbac@
    }

    /// The rules of the ABAC part.
    pub closed spec fn rules(&self) -> Seq<PolicyRule> {
        self.abac.rules@
    }

    /// A combination of `rbac` and `abac`.
    pub fn new(rbac: RbacPolicy, abac: AbacPolicy) -> (c: CombinedPolicy)
        ensures
            c.roles() == rbac@,
            c.rules() == abac.rules@,
    {
        CombinedPolicy { rbac, abac }
    }

    /// The default RBAC policy with the default ABAC policy.
    pub fn default_policy() -> (r: Result<CombinedPolicy, AuthzError>)
        ensures
            r matches Ok(c) && c.roles() == default_role_map() && c.rules().len() == 1
                && is_maintenance_rule(c.rules()[0]),
    {
        let rbac = match RbacPolicy::default_policy() {
            Ok(p) => p,
            Err(e) => {
                return Err(e);
            },
        };
        Ok(CombinedPolicy { rbac, abac: AbacPolicy::default_policy() })
    }

    /// Decides an access: `Deny` when ABAC denies, otherwise `Allow` exactly
    /// when one of the subject's roles holds the permission for the
    /// resource type and action.
    pub fn evaluate(&self, context: &AuthzContext) -> (r: Result<PolicyDecision, AuthzError>)
        ensures
            r == Ok::<PolicyDecision, AuthzError>(combined_decision(
                rbac_grants(self.roles(), context.subject.roles@, (context.resource.resource_type@, context.action@)),
                policy_outcome(self.rules(), context.resource.resource_type@, context.action@, eval_view_of(*context), false),
            )),
            (r == Ok::<PolicyDecision, AuthzError>(PolicyDecision::Allow)) <==> (
                rbac_grants(self.roles(), context.subject.roles@, (context.resource.resource_type@, context.action@))
                && policy_outcome(self.rules(), context.resource.resource_type@, context.action@, eval_view_of(*context), false)
                    != EvaluationResult::Deny),
    {
        let permission = Permission::new(context.resource.resource_type.copy(), context.action.copy());
        let rbac_allowed = self.rbac.has_permission(context.subject.roles.as_slice(), &permission);
        let abac_result = evaluate_rules(&self.abac, context);
        match abac_result {
            EvaluationResult::Deny => Ok(PolicyDecision::Deny),
            EvaluationResult::Allow => {
                if rbac_allowed {
                    Ok(PolicyDecision::Allow)
                } else {
                    Ok(PolicyDecision::Deny)
                }
            },
            EvaluationResult::NotApplicable => {
                if rbac_allowed {
                    Ok(PolicyDecision::Allow)
                } else {
                    Ok(PolicyDecision::Deny)
                }
            },
        }
    }
}

/// The decision of `policy` for `context` (see `policy_outcome`).
pub open spec fn context_decision(roles: Map<RoleView, RoleNode>, rules: Seq<PolicyRule>, context: AuthzContext) -> PolicyDecision {
    combined_decision(
        rbac_grants(roles, context.subject.roles@, (context.resource.resource_type@, context.action@)),
        policy_outcome(rules, context.resource.resource_type@, context.action@, eval_view_of(context), false),
    )
}

/// The RBAC and ABAC policies kept in memory.
pub struct InMemoryPolicyStore {
    pub rbac: RbacPolicy,
    pub abac: AbacPolicy,
}

impl InMemoryPolicyStore {
    /// A store with the default RBAC and ABAC policies.
    pub fn new() -> (r: Result<InMemoryPolicyStore, AuthzError>)
        ensures
            r matches Ok(s) && s.rbac@ == default_role_map() && s.abac.rules@.len() == 1
                && is_maintenance_rule(s.abac.rules@[0]),
    {
        let rbac = match RbacPolicy::default_policy() {
            Ok(p) => p,
            Err(e) => {
                return Err(e);
            },
        };
        Ok(InMemoryPolicyStore { rbac, abac: AbacPolicy::default_policy() })
    }

    /// A store with the given policies.
    pub fn with_policies(rbac: RbacPolicy, abac: AbacPolicy) -> (s: InMemoryPolicyStore)
        ensures
            s.rbac == rbac,
            s.abac == abac,
    {
        InMemoryPolicyStore { rbac, abac }
    }

    /// The RBAC policy.
    pub fn get_rbac_policy(&self) -> (r: &RbacPolicy)
        ensures
            *r == self.rbac,
    {
        &self.rbac
    }

    /// The ABAC policy.
    pub fn get_abac_policy(&self) -> (r: &AbacPolicy)
        ensures
            *r == self.abac,
    {
        &self.abac
    }

    /// Replaces the RBAC policy.
    pub fn update_rbac_policy(&mut self, policy: RbacPolicy)
        ensures
            final(self).rbac == policy,
            final(self).abac == old(self).abac,
    {
        self.rbac = policy;
    }

    /// Replaces the ABAC policy.
    pub fn update_abac_policy(&mut self, policy: AbacPolicy)
        ensures
            final(self).abac == policy,
            final(self).rbac == old(self).rbac,
    {
        self.abac = policy;
    }

    /// The combination of the stored policies.
    pub fn into_policy(self) -> (c: CombinedPolicy)
        ensures
            c.roles() == self.rbac@,
            c.rules() == self.abac.rules@,
    {
        CombinedPolicy::new(self.rbac, self.abac)
    }
}

/// Decides requests with a combined policy.
pub struct PolicyEngine {
    pub policy: CombinedPolicy,
}

impl PolicyEngine {
    /// An engine deciding with `policy`.
    pub fn new(policy: CombinedPolicy) -> (e: PolicyEngine)
        ensures
            e.policy == policy,
    {
        PolicyEngine { policy }
    }

    /// An engine with the default RBAC and ABAC policies.
    pub fn with_default_store() -> (r: Result<PolicyEngine, AuthzError>)
        ensures
            r matches Ok(e) && e.policy.roles() == default_role_map() && e.policy.rules().len() == 1
                && is_maintenance_rule(e.policy.rules()[0]),
    {
        match CombinedPolicy::default_policy() {
            Ok(p) => Ok(PolicyEngine { policy: p }),
            Err(e) => Err(e),
        }
    }

    /// The decision for `context`.
    pub fn authorize(&self, context: &AuthzContext) -> (r: Result<PolicyDecision, AuthzError>)
        ensures
            r == Ok::<PolicyDecision, AuthzError>(context_decision(self.policy.roles(), self.policy.rules(), *context)),
    {
        self.policy.evaluate(context)
    }

    /// Whether `context` is allowed.
    pub fn is_allowed(&self, context: &AuthzContext) -> (r: Result<bool, AuthzError>)
        ensures
            r == Ok::<bool, AuthzError>(context_decision(self.policy.roles(), self.policy.rules(), *context)
                == PolicyDecision::Allow),
    {
        match self.authorize(context) {
            Ok(d) => Ok(d.is_allow()),
            Err(e) => Err(e),
        }
    }

    /// `Ok` when `context` is allowed, `AccessDenied` when denied.
    pub fn require(&self, context: &AuthzContext) -> (r: Result<(), AuthzError>)
        ensures
            context_decision(self.policy.roles(), self.policy.rules(), *context) == PolicyDecision::Allow ==> r is Ok,
            context_decision(self.policy.roles(), self.policy.rules(), *context) == PolicyDecision::Deny
                ==> r matches Err(AuthzError::AccessDenied),
    {
        match self.authorize(context) {
            Ok(PolicyDecision::Allow) => Ok(()),
            Ok(PolicyDecision::Deny) => Err(AuthzError::AccessDenied),
            Err(e) => Err(e),
        }
    }
}

/// The role that a token's domain stands for.
pub open spec fn domain_role(d: UserDomain) -> RoleView {
    match d {
        UserDomain::Admin => ("admin"@, UserDomain::Admin),
        UserDomain::Retail => ("retail_trader"@, UserDomain::Retail),
        UserDomain::Institutional => ("institutional_trader"@, UserDomain::Institutional),
        UserDomain::Compliance => ("compliance"@, UserDomain::Compliance),
        UserDomain::Service => ("service"@, UserDomain::Service),
    }
}

/// The subject described by access-token claims: the user named by the
/// subject claim (a fresh identifier when it is not a UUID), the token's
/// domain with the one role of that domain, and the session named by the
/// session claim when it is a UUID.
pub fn subject_from_claims(claims: &AccessClaims) -> (s: Subject)
    ensures
        uuid_parse_value(claims.standard.sub@) matches Some(v) ==> s.user_id == UserId(v),
        s.domain == claims.domain,
        role_views(s.roles@) == seq![domain_role(claims.domain)],
        s.session_id == (match uuid_parse_value(claims.session_id@) {
            Some(v) => Some(SessionId(v)),
            None => None,
        }),
        s.attributes@ == Map::<Seq<char>, JsonView>::empty(),
{
    let user_id = match parse_uuid(claims.standard.sub.as_str()) {
        Some(v) => UserId(v),
        None => UserId(random_uuid()),
    };
    let role = match claims.domain {
        UserDomain::Admin => Role::admin(),
        UserDomain::Retail => Role::retail_trader(),
        UserDomain::Institutional => Role::institutional_trader(),
        UserDomain::Compliance => Role::compliance(),
        UserDomain::Service => Role::service(),
    };
    let subject = Subject::new(user_id, claims.domain).with_role(role);
    assert(subject.roles@ =~= seq![role]);
    assert(role_views(subject.roles@) =~= seq![role@]);
    match parse_uuid(claims.session_id.as_str()) {
        Some(v) => subject.with_session(SessionId(v)),
        None => subject,
    }
}

} // verus!
