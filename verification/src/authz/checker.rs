//! Programmatic permission checks over a policy engine, from subjects or
//! from access-token claims, and the authorization step of API handlers.
use vstd::prelude::*;
use crate::authz::abac::{EvalView, PolicyRule, eval_view_of, policy_outcome, is_maintenance_rule};
use crate::authz::policy::{
    PolicyDecision, PolicyEngine, combined_decision, context_decision, domain_role, rbac_grants, subject_from_claims,
};
use crate::authz::rbac::{RoleNode, default_role_map};
use crate::authz::types::{
    Action, ActionKind, AuthzContext, AuthzError, Resource, ResourceKind, ResourceType, RoleView, Subject, role_views,
};
use crate::authz::value::{JsonView, overlay};
use crate::domain::claims::AccessClaims;
use crate::domain::user::domain_name;
use crate::ids::{SessionId, UserId, uuid_parse_value, uuid_text};

verus! {

/// What the rules see of a request by `subject` on `resource` (no
/// environment): the subject's identifier, domain and attributes, the
/// resource's owner and attributes.
pub open spec fn request_view(subject: Subject, resource: Resource) -> EvalView {
    EvalView {
        subject: overlay(
            Map::empty().insert("user_id"@, JsonView::Str(uuid_text(subject.user_id.0)))
                .insert("domain"@, JsonView::Str(domain_name(subject.domain))),
            subject.attributes@,
        ),
        resource: overlay(
            match resource.owner_id {
                Some(o) => Map::empty().insert("owner_id"@, JsonView::Str(uuid_text(o.0))),
                None => Map::empty(),
            },
            resource.attributes@,
        ),
        environment: Map::empty(),
    }
}

/// The decision on `subject` doing `action` on `resource`.
pub open spec fn request_decision(
    roles: Map<RoleView, RoleNode>,
    rules: Seq<PolicyRule>,
    subject: Subject,
    action: ActionKind,
    resource: Resource,
) -> PolicyDecision {
    combined_decision(
        rbac_grants(roles, subject.roles@, (resource.resource_type@, action)),
        policy_outcome(rules, resource.resource_type@, action, request_view(subject, resource), false),
    )
}

/// Roles with the same views grant the same permissions.
proof fn lemma_grants_by_views(m: Map<RoleView, RoleNode>, a: Seq<crate::authz::types::Role>, b: Seq<crate::authz::types::Role>, p: crate::authz::types::PermissionView)
    requires
        role_views(a) == role_views(b),
    ensures
        rbac_grants(m, a, p) == rbac_grants(m, b, p),
{
    assert(a.len() == role_views(a).len());
    assert(b.len() == role_views(b).len());
    assert forall|i: int| 0 <= i < a.len() implies a[i]@ == b[i]@ by {
        assert(role_views(a)[i] == a[i]@);
        assert(role_views(b)[i] == b[i]@);
    }
    if rbac_grants(m, a, p) {
        let i = choose|i: int| 0 <= i < a.len() && (#[trigger] crate::authz::rbac::all_permissions(m, a[i]@) matches Ok(ps) && ps.contains(p));
        assert(crate::authz::rbac::all_permissions(m, b[i]@) == crate::authz::rbac::all_permissions(m, a[i]@));
    }
    if rbac_grants(m, b, p) {
        let i = choose|i: int| 0 <= i < b.len() && (#[trigger] crate::authz::rbac::all_permissions(m, b[i]@) matches Ok(ps) && ps.contains(p));
        assert(crate::authz::rbac::all_permissions(m, a[i]@) == crate::authz::rbac::all_permissions(m, b[i]@));
    }
}

/// The nine actions whose permission `get_allowed_actions` asks about, in order.
pub open spec fn listed_actions() -> Seq<ActionKind> {
    seq![ActionKind::Read, ActionKind::Create, ActionKind::Update, ActionKind::Delete, ActionKind::Execute,
        ActionKind::Approve, ActionKind::Reject, ActionKind::Cancel, ActionKind::Export]
}

/// Permission checks over a policy engine.
pub struct PermissionChecker {
    pub engine: PolicyEngine,
}

impl PermissionChecker {
    /// The role hierarchy the checker decides with.
    pub open spec fn roles(&self) -> Map<RoleView, RoleNode> {
        self.engine.policy.roles()
    }

    /// The ABAC rules the checker decides with.
    pub open spec fn rules(&self) -> Seq<PolicyRule> {
        self.engine.policy.rules()
    }

    /// A checker deciding with `engine`.
    pub fn new(engine: PolicyEngine) -> (c: PermissionChecker)
        ensures
            c.engine == engine,
    {
        PermissionChecker { engine }
    }

    /// A checker with the default policies.
    pub fn with_default_engine() -> (r: Result<PermissionChecker, AuthzError>)
        ensures
            r matches Ok(c) && c.roles() == default_role_map() && c.rules().len() == 1
                && is_maintenance_rule(c.rules()[0]),
    {
        match PolicyEngine::with_default_store() {
            Ok(e) => Ok(PermissionChecker { engine: e }),
            Err(e) => Err(e),
        }
    }

    /// The context of a request, with the same decision as the request.
    fn context_for(&self, subject: &Subject, action: Action, resource: Resource) -> (c: AuthzContext)
        ensures
            context_decision(self.roles(), self.rules(), c) == request_decision(self.roles(), self.rules(), *subject, action@, resource),
    {
        let ghost a = action@;
        let ghost res = resource;
        let c = AuthzContext::new(subject.copy(), action, resource);
        proof {
            assert(eval_view_of(c) =~= request_view(*subject, res));
            lemma_grants_by_views(self.roles(), c.subject.roles@, subject.roles@, (res.resource_type@, a));
        }
        c
    }

    /// Whether `subject` may do `action` on `resource`.
    pub fn check(&self, subject: &Subject, action: Action, resource: Resource) -> (r: Result<bool, AuthzError>)
        ensures
            r == Ok::<bool, AuthzError>(request_decision(self.roles(), self.rules(), *subject, action@, resource)
                == PolicyDecision::Allow),
    {
        let context = self.context_for(subject, action, resource);
        self.engine.is_allowed(&context)
    }

    /// `Ok` when `subject` may do `action` on `resource`, `AccessDenied` otherwise.
    pub fn require(&self, subject: &Subject, action: Action, resource: Resource) -> (r: Result<(), AuthzError>)
        ensures
            request_decision(self.roles(), self.rules(), *subject, action@, resource) == PolicyDecision::Allow ==> r is Ok,
            request_decision(self.roles(), self.rules(), *subject, action@, resource) == PolicyDecision::Deny
                ==> r matches Err(AuthzError::AccessDenied),
    {
        let context = self.context_for(subject, action, resource);
        self.engine.require(&context)
    }

    /// `check` for the subject of access-token claims (see
    /// `subject_from_claims`; its user is a fresh identifier when the
    /// subject claim is not a UUID).
    pub fn check_from_claims(&self, claims: &AccessClaims, action: Action, resource: Resource) -> (r: Result<bool, AuthzError>)
        ensures
            exists|s: Subject| #[trigger] claims_subject(claims, s) && r == Ok::<bool, AuthzError>(
                request_decision(self.roles(), self.rules(), s, action@, resource) == PolicyDecision::Allow),
    {
        let subject = subject_from_claims(claims);
        assert(claims_subject(claims, subject));
        self.check(&subject, action, resource)
    }

    /// `require` for the subject of access-token claims.
    pub fn require_from_claims(&self, claims: &AccessClaims, action: Action, resource: Resource) -> (r: Result<(), AuthzError>)
        ensures
            exists|s: Subject| #[trigger] claims_subject(claims, s) && match request_decision(self.roles(), self.rules(), s, action@, resource) {
                PolicyDecision::Allow => r is Ok,
                _ => r matches Err(AuthzError::AccessDenied),
            },
    {
        let subject = subject_from_claims(claims);
        assert(claims_subject(claims, subject));
        self.require(&subject, action, resource)
    }

    /// `check` of each (action, resource) pair, in order.
    pub fn check_batch(&self, subject: &Subject, actions: Vec<(Action, Resource)>) -> (r: Result<Vec<bool>, AuthzError>)
        ensures
            r matches Ok(v) && v@.len() == actions@.len() && forall|i: int| 0 <= i < v@.len() ==> #[trigger] v@[i]
                == (request_decision(self.roles(), self.rules(), *subject, actions@[i].0@, actions@[i].1)
                    == PolicyDecision::Allow),
    {
        let ghost all = actions@;
        let n = actions.len();
        let mut rest = actions;
        let mut results: Vec<bool> = Vec::new();
        let mut i: usize = 0;
        while i < n
            invariant
                n == all.len(),
                i <= n,
                rest@ == all.skip(i as int),
                results@.len() == i,
                forall|j: int| 0 <= j < i ==> #[trigger] results@[j] == (request_decision(self.roles(), self.rules(),
                    *subject, all[j].0@, all[j].1) == PolicyDecision::Allow),
            decreases n - i,
        {
            let (action, resource) = rest.remove(0);
            assert(all.skip(i as int)[0] == all[i as int]);
            let allowed = match self.check(subject, action, resource) {
                Ok(b) => b,
                Err(e) => {
                    return Err(e);
                },
            };
            results.push(allowed);
            assert(all.skip(i as int).remove(0) =~= all.skip(i + 1));
            i += 1;
        }
        Ok(results)
    }

    /// The actions among `listed_actions` (in that order) that `subject` may
    /// do on a resource of type `resource_type` (no identifier, owner or
    /// attributes).
    pub fn get_allowed_actions(&self, subject: &Subject, resource_type: ResourceType) -> (r: Result<Vec<Action>, AuthzError>)
        ensures
            r matches Ok(v) && action_views(v@) == listed_actions().filter(|k: ActionKind| allowed_by(self.roles(),
                self.rules(), *subject, k, resource_type@) == PolicyDecision::Allow),
    {
        let actions = [
            Action::Read, Action::Create, Action::Update, Action::Delete, Action::Execute, Action::Approve,
            Action::Reject, Action::Cancel, Action::Export,
        ];
        let ghost pred = |k: ActionKind| allowed_by(self.roles(), self.rules(), *subject, k, resource_type@)
            == PolicyDecision::Allow;
        let mut allowed: Vec<Action> = Vec::new();
        let mut i: usize = 0;
        proof {
            reveal(Seq::filter);
            assert(listed_actions().take(0) =~= Seq::<ActionKind>::empty());
            assert(action_views(allowed@) =~= Seq::<ActionKind>::empty());
        }
        while i < 9
            invariant
                i <= 9,
                forall|j: int| 0 <= j < 9 ==> (#[trigger] actions@[j])@ == listed_actions()[j],
                action_views(allowed@) == listed_actions().take(i as int).filter(pred),
                pred == (|k: ActionKind| allowed_by(self.roles(), self.rules(), *subject, k, resource_type@)
                    == PolicyDecision::Allow),
            decreases 9 - i,
        {
            let action = actions[i].copy();
            let resource = Resource::new(resource_type.copy());
            proof {
                assert(listed_actions().contains(listed_actions()[i as int]));
                assert(request_view(*subject, resource).resource =~= Map::<Seq<char>, JsonView>::empty());
                assert(request_view(*subject, resource) == EvalView {
                    subject: request_view_subject(*subject),
                    resource: Map::empty(),
                    environment: Map::empty(),
                });
                assert(request_decision(self.roles(), self.rules(), *subject, action@, resource)
                    == allowed_by(self.roles(), self.rules(), *subject, action@, resource_type@));
            }
            let ok = match self.check(subject, action.copy(), resource) {
                Ok(b) => b,
                Err(e) => {
                    return Err(e);
                },
            };
            let ghost before = allowed@;
            if ok {
                allowed.push(action);
            }
            proof {
                reveal(Seq::filter);
                assert(listed_actions().take(i + 1).drop_last() =~= listed_actions().take(i as int));
                assert(listed_actions().take(i + 1).last() == action@);
                assert(action_views(allowed@) =~= (if ok { action_views(before).push(action@) } else { action_views(before) }));
            }
            i += 1;
        }
        assert(listed_actions().take(9) =~= listed_actions());
        Ok(allowed)
    }
}

/// The decision on `subject` doing `action` on a bare resource of type `resource_type`.
pub open spec fn allowed_by(
    roles: Map<RoleView, RoleNode>,
    rules: Seq<PolicyRule>,
    subject: Subject,
    action: ActionKind,
    resource_type: ResourceKind,
) -> PolicyDecision {
    combined_decision(
        rbac_grants(roles, subject.roles@, (resource_type, action)),
        policy_outcome(rules, resource_type, action, EvalView {
            subject: request_view_subject(subject),
            resource: Map::empty(),
            environment: Map::empty(),
        }, false),
    )
}

/// What the rules see of a subject.
pub open spec fn request_view_subject(subject: Subject) -> Map<Seq<char>, JsonView> {
    overlay(
        Map::empty().insert("user_id"@, JsonView::Str(uuid_text(subject.user_id.0)))
            .insert("domain"@, JsonView::Str(domain_name(subject.domain))),
        subject.attributes@,
    )
}

/// The views of a sequence of actions.
pub open spec fn action_views(v: Seq<Action>) -> Seq<ActionKind> {
    v.map_values(|a: Action| a@)
}

/// `s` is a subject that `subject_from_claims` may give for `claims`.
pub open spec fn claims_subject(claims: &AccessClaims, s: Subject) -> bool {
    &&& uuid_parse_value(claims.standard.sub@) matches Some(v) ==> s.user_id == UserId(v)
    &&& s.domain == claims.domain
    &&& role_views(s.roles@) == seq![domain_role(claims.domain)]
    &&& s.session_id == (match uuid_parse_value(claims.session_id@) {
        Some(v) => Some(SessionId(v)),
        None => None,
    })
    &&& s.attributes@ == Map::<Seq<char>, JsonView>::empty()
}

/// The authorization step of API handlers.
pub struct AuthorizationMiddleware {
    pub checker: PermissionChecker,
}

impl AuthorizationMiddleware {
    /// A middleware checking with `checker`.
    pub fn new(checker: PermissionChecker) -> (m: AuthorizationMiddleware)
        ensures
            m.checker == checker,
    {
        AuthorizationMiddleware { checker }
    }

    /// `Ok` when the subject of `claims` may do `action` on `resource`,
    /// `AccessDenied` otherwise.
    pub fn authorize(&self, claims: &AccessClaims, action: Action, resource: Resource) -> (r: Result<(), AuthzError>)
        ensures
            exists|s: Subject| #[trigger] claims_subject(claims, s) && match request_decision(self.checker.roles(),
                self.checker.rules(), s, action@, resource) {
                PolicyDecision::Allow => r is Ok,
                _ => r matches Err(AuthzError::AccessDenied),
            },
    {
        self.checker.require_from_claims(claims, action, resource)
    }

    /// The subject of `claims`.
    pub fn get_subject(&self, claims: &AccessClaims) -> (s: Subject)
        ensures
            claims_subject(claims, s),
    {
        subject_from_claims(claims)
    }
}

} // verus!
