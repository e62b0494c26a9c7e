//! Attribute-based access control: conditions on subject, resource and
//! environment attributes, rules made of conditions, and the evaluation of
//! a list of rules in which an applicable deny rule always wins.
use vstd::prelude::*;
use crate::authz::types::{AuthzContext, AuthzError, Action, ActionKind, ResourceType, ResourceKind};
use crate::authz::value::{AttrMap, AttrValue, JsonView, jv, json_eq, json_seq_contains, entry_lookup, entries_get, value_eq, overlay};
use crate::text::{string_views, is_prefix, is_suffix, occurs_in, str_starts_with, str_ends_with, str_contains, str_eq, split_dots, split_on_dots, lemma_split_dots_nonempty};
use crate::domain::user::domain_name;
use crate::ids::uuid_text;

verus! {

broadcast use vstd::std_specs::vec::group_vec_axioms;

/// Effect of a rule whose conditions hold.
#[derive(Debug, Clone, Copy, PartialEq, Eq, Structural)]
pub enum PolicyEffect {
    Allow,
    Deny,
}

/// Comparison made by a condition.
#[derive(Debug, Clone, Copy, PartialEq, Eq, Structural)]
pub enum ConditionOperator {
    Equals,
    NotEquals,
    GreaterThan,
    GreaterThanOrEqual,
    LessThan,
    LessThanOrEqual,
    In,
    NotIn,
    Contains,
    StartsWith,
    EndsWith,
    Exists,
    NotExists,
}

/// The value reached from `v` by following `keys` through nested objects.
pub open spec fn descend(v: JsonView, keys: Seq<Seq<char>>) -> Option<JsonView>
    decreases keys.len(),
{
    if keys.len() == 0 {
        Some(v)
    } else {
        match v {
            JsonView::Object(entries) => match entry_lookup(entries, keys[0]) {
                Some(w) => descend(w, keys.drop_first()),
                None => None,
            },
            _ => None,
        }
    }
}

/// The value at `path` in the attribute map `m` (an empty path reaches nothing).
pub open spec fn lookup_path(m: Map<Seq<char>, JsonView>, path: Seq<Seq<char>>) -> Option<JsonView> {
    if path.len() == 0 {
        None
    } else if m.contains_key(path[0]) {
        descend(m[path[0]], path.drop_first())
    } else {
        None
    }
}

/// What an evaluation sees: the three attribute maps.
pub struct EvalView {
    pub subject: Map<Seq<char>, JsonView>,
    pub resource: Map<Seq<char>, JsonView>,
    pub environment: Map<Seq<char>, JsonView>,
}

/// The value named by a dotted attribute path such as "subject.domain":
/// its first piece picks the map, the others are followed inside it.
pub open spec fn attribute_value(ctx: EvalView, attribute: Seq<char>) -> Option<JsonView> {
    let parts = split_dots(attribute);
    let rest = parts.drop_first();
    if parts[0] == "subject"@ {
        lookup_path(ctx.subject, rest)
    } else if parts[0] == "resource"@ {
        lookup_path(ctx.resource, rest)
    } else if parts[0] == "environment"@ {
        lookup_path(ctx.environment, rest)
    } else {
        None
    }
}

/// The numeric comparison `op` of `a` with `b`; false unless both are numbers.
pub open spec fn number_compare(op: ConditionOperator, a: JsonView, b: JsonView) -> bool {
    match (a, b) {
        (JsonView::Number(x), JsonView::Number(y)) => match op {
            ConditionOperator::GreaterThan => x > y,
            ConditionOperator::GreaterThanOrEqual => x >= y,
            ConditionOperator::LessThan => x < y,
            _ => x <= y,
        },
        _ => false,
    }
}

/// Outcome of a condition with operator `op` and value `expected` on the
/// attribute value `actual` (`None` when the attribute is absent).
pub open spec fn condition_outcome(op: ConditionOperator, actual: Option<JsonView>, expected: JsonView) -> bool {
    match actual {
        None => op == ConditionOperator::NotExists,
        Some(a) => match op {
            ConditionOperator::Exists => true,
            ConditionOperator::NotExists => false,
            ConditionOperator::Equals => json_eq(a, expected),
            ConditionOperator::NotEquals => !json_eq(a, expected),
            ConditionOperator::GreaterThan | ConditionOperator::GreaterThanOrEqual
            | ConditionOperator::LessThan | ConditionOperator::LessThanOrEqual => number_compare(op, a, expected),
            ConditionOperator::In => match expected {
                JsonView::Array(items) => json_seq_contains(items, a),
                _ => false,
            },
            ConditionOperator::NotIn => match expected {
                JsonView::Array(items) => !json_seq_contains(items, a),
                _ => true,
            },
            ConditionOperator::Contains => match (a, expected) {
                (JsonView::Str(s1), JsonView::Str(s2)) => occurs_in(s2, s1),
                _ => false,
            },
            ConditionOperator::StartsWith => match (a, expected) {
                (JsonView::Str(s1), JsonView::Str(s2)) => is_prefix(s2, s1),
                _ => false,
            },
            ConditionOperator::EndsWith => match (a, expected) {
                (JsonView::Str(s1), JsonView::Str(s2)) => is_suffix(s2, s1),
                _ => false,
            },
        },
    }
}

/// A text condition holds on an attribute value built around the
/// condition's value: `Contains` on any text holding it, `StartsWith` on a
/// text beginning with it, `EndsWith` on a text ending with it.
pub proof fn lemma_text_conditions_hold(p: Seq<char>, v: Seq<char>, q: Seq<char>)
    ensures
        condition_outcome(ConditionOperator::Contains, Some(JsonView::Str(p + v + q)), JsonView::Str(v)),
        condition_outcome(ConditionOperator::StartsWith, Some(JsonView::Str(v + q)), JsonView::Str(v)),
        condition_outcome(ConditionOperator::EndsWith, Some(JsonView::Str(p + v)), JsonView::Str(v)),
{
    let a = p + v + q;
    assert(a.subrange(p.len() as int, p.len() + v.len() as int) =~= v);
    assert((v + q).subrange(0, v.len() as int) =~= v);
    assert((p + v).subrange((p + v).len() - v.len(), (p + v).len() as int) =~= v);
}

/// What a text condition says of the attribute text `a` and the condition's
/// text `v`: `Contains` holds only when `v` is a run of `a`, `StartsWith`
/// exactly when `a` begins with `v`, `EndsWith` exactly when `a` ends with `v`.
pub proof fn lemma_text_conditions_mean(a: Seq<char>, v: Seq<char>)
    ensures
        condition_outcome(ConditionOperator::Contains, Some(JsonView::Str(a)), JsonView::Str(v))
            ==> (v.len() <= a.len() && exists|i: int| 0 <= i <= a.len() - v.len() && #[trigger] a.subrange(i, i + v.len()) == v),
        condition_outcome(ConditionOperator::StartsWith, Some(JsonView::Str(a)), JsonView::Str(v))
            <==> (v.len() <= a.len() && a.subrange(0, v.len() as int) == v),
        condition_outcome(ConditionOperator::EndsWith, Some(JsonView::Str(a)), JsonView::Str(v))
            <==> (v.len() <= a.len() && a.subrange(a.len() - v.len(), a.len() as int) == v),
        v.len() > a.len() ==> !condition_outcome(ConditionOperator::Contains, Some(JsonView::Str(a)), JsonView::Str(v)),
{
}

/// How the outcomes of the operators relate: an absent attribute satisfies
/// `NotExists` and nothing else; `Exists` and `NotExists` are opposite; on a
/// present attribute `NotEquals` is the opposite of `Equals` and, against a
/// list, `NotIn` of `In`; numbers compare as integers; an attribute equal to
/// the condition's text or number satisfies `Equals`.
pub proof fn lemma_operator_relations(op: ConditionOperator, actual: Option<JsonView>, expected: JsonView)
    ensures
        actual is None ==> condition_outcome(op, actual, expected) == (op == ConditionOperator::NotExists),
        condition_outcome(ConditionOperator::Exists, actual, expected) == (actual is Some),
        condition_outcome(ConditionOperator::NotExists, actual, expected)
            == !condition_outcome(ConditionOperator::Exists, actual, expected),
        actual is Some ==> condition_outcome(ConditionOperator::NotEquals, actual, expected)
            == !condition_outcome(ConditionOperator::Equals, actual, expected),
        actual is Some && expected is Array ==> condition_outcome(ConditionOperator::NotIn, actual, expected)
            == !condition_outcome(ConditionOperator::In, actual, expected),
        actual matches Some(JsonView::Number(x)) ==> (expected matches JsonView::Number(y) ==> {
            &&& condition_outcome(ConditionOperator::GreaterThan, actual, expected) == (x > y)
            &&& condition_outcome(ConditionOperator::GreaterThanOrEqual, actual, expected) == (x >= y)
            &&& condition_outcome(ConditionOperator::LessThan, actual, expected) == (x < y)
            &&& condition_outcome(ConditionOperator::LessThanOrEqual, actual, expected) == (x <= y)
            &&& condition_outcome(ConditionOperator::Equals, actual, expected) == (x == y)
        }),
        actual matches Some(JsonView::Str(x)) ==> (expected matches JsonView::Str(y)
            ==> condition_outcome(ConditionOperator::Equals, actual, expected) == (x == y)),
{
}

/// Condition of a rule: an attribute path, an operator and a value.
#[derive(Debug)]
pub struct Condition {
    pub attribute: String,
    pub operator: ConditionOperator,
    pub value: AttrValue,
}

/// Whether a condition holds in an evaluation context.
pub open spec fn condition_holds(c: Condition, ctx: EvalView) -> bool {
    condition_outcome(c.operator, attribute_value(ctx, c.attribute@), jv(c.value))
}

/// Whether all of a list of conditions hold (they are evaluated in order
/// until one fails).
pub open spec fn conditions_outcome(conds: Seq<Condition>, ctx: EvalView) -> bool
    decreases conds.len(),
{
    if conds.len() == 0 {
        true
    } else {
        condition_holds(conds[0], ctx) && conditions_outcome(conds.drop_first(), ctx)
    }
}

/// Attributes of an evaluation, flattened from an authorization context.
#[derive(Debug)]
pub struct EvaluationContext {
    pub subject_attributes: AttrMap,
    pub resource_attributes: AttrMap,
    pub environment_attributes: AttrMap,
}

impl View for EvaluationContext {
    type V = EvalView;

    open spec fn view(&self) -> EvalView {
        EvalView {
            subject: self.subject_attributes@,
            resource: self.resource_attributes@,
            environment: self.environment_attributes@,
        }
    }
}

/// The evaluation attributes of an authorization context: the subject's
/// identifier and domain under its own attributes, the resource's owner (if
/// any) under its own attributes, and the environment.
pub open spec fn eval_view_of(c: AuthzContext) -> EvalView {
    EvalView {
        subject: overlay(
            Map::empty().insert("user_id"@, JsonView::Str(uuid_text(c.subject.user_id.0)))
                .insert("domain"@, JsonView::Str(domain_name(c.subject.domain))),
            c.subject.attributes@,
        ),
        resource: overlay(
            match c.resource.owner_id {
                Some(o) => Map::empty().insert("owner_id"@, JsonView::Str(uuid_text(o.0))),
                None => Map::empty(),
            },
            c.resource.attributes@,
        ),
        environment: c.environment@,
    }
}

impl EvaluationContext {
    /// The evaluation attributes of `context` (see `eval_view_of`).
    pub fn from_authz_context(context: &AuthzContext) -> (r: EvaluationContext)
        ensures
            r@ == eval_view_of(*context),
    {
        let mut subject_attrs = AttrMap::new();
        subject_attrs.insert(String::from_str("user_id"), AttrValue::Str(context.subject.user_id.to_string()));
        subject_attrs.insert(String::from_str("domain"), AttrValue::Str(context.subject.domain.debug_name()));
        let ghost base = subject_attrs@;
        subject_attrs.extend(&context.subject.attributes);
        let mut resource_attrs = AttrMap::new();
        match &context.resource.owner_id {
            Some(owner) => {
                resource_attrs.insert(String::from_str("owner_id"), AttrValue::Str(owner.to_string()));
            },
            None => {},
        }
        let ghost rbase = resource_attrs@;
        resource_attrs.extend(&context.resource.attributes);
        let r = EvaluationContext {
            subject_attributes: subject_attrs,
            resource_attributes: resource_attrs,
            environment_attributes: context.environment.copy(),
        };
        proof {
            let e = eval_view_of(*context);
            assert(r@.subject =~= e.subject);
            assert(r@.resource =~= e.resource);
        }
        r
    }
}

/// The value at `path` (all pieces but the first) in `map`.
fn extract_from_map<'a>(map: &'a AttrMap, path: &Vec<String>) -> (r: Option<&'a AttrValue>)
    requires
        path@.len() >= 1,
    ensures
        match r {
            Some(v) => lookup_path(map@, string_views(path@).drop_first()) == Some(jv(*v)),
            None => lookup_path(map@, string_views(path@).drop_first()) is None,
        },
{
    let ghost keys = string_views(path@).drop_first();
    if path.len() == 1 {
        return None;
    }
    assert(keys[0] == path@[1]@);
    match map.get(path[1].as_str()) {
        None => None,
        Some(first) => {
            let mut current: &AttrValue = first;
            let mut k: usize = 2;
            assert(keys.drop_first() =~= keys.subrange(1, keys.len() as int));
            while k < path.len()
                invariant
                    2 <= k <= path@.len(),
                    keys == string_views(path@).drop_first(),
                    lookup_path(map@, keys) == descend(jv(*current), keys.subrange(k - 1, keys.len() as int)),
                decreases path@.len() - k,
            {
                let ghost rest = keys.subrange(k - 1, keys.len() as int);
                assert(rest[0] == path@[k as int]@);
                assert(rest.drop_first() =~= keys.subrange(k as int, keys.len() as int));
                match current {
                    AttrValue::Object(entries) => {
                        match entries_get(entries, path[k].as_str()) {
                            Some(w) => {
                                current = w;
                            },
                            None => {
                                return None;
                            },
                        }
                    },
                    _ => {
                        return None;
                    },
                }
                k += 1;
            }
            assert(keys.subrange(k - 1, keys.len() as int) =~= Seq::<Seq<char>>::empty());
            Some(current)
        },
    }
}

/// Whether the array `items` holds a value equal to `v`.
fn array_contains(items: &Vec<AttrValue>, v: &AttrValue) -> (b: bool)
    ensures
        jv(AttrValue::Array(*items)) matches JsonView::Array(s) && b == json_seq_contains(s, jv(*v)),
{
    let ghost s = match jv(AttrValue::Array(*items)) { JsonView::Array(s) => s, _ => Seq::empty() };
    assert(jv(AttrValue::Array(*items)) == JsonView::Array(s));
    let mut i: usize = 0;
    while i < items.len()
        invariant
            i <= items@.len(),
            jv(AttrValue::Array(*items)) == JsonView::Array(s),
            s.len() == items@.len(),
            forall|j: int| 0 <= j < items@.len() ==> s[j] == jv(items@[j]),
            forall|j: int| 0 <= j < i ==> !json_eq(#[trigger] s[j], jv(*v)),
        decreases items@.len() - i,
    {
        if value_eq(&items[i], v) {
            assert(json_eq(s[i as int], jv(*v)));
            return true;
        }
        i += 1;
    }
    false
}

impl Condition {
    /// A condition on `attribute`.
    pub fn new(attribute: String, operator: ConditionOperator, value: AttrValue) -> (c: Condition)
        ensures
            c.attribute == attribute,
            c.operator == operator,
            c.value == value,
    {
        Condition { attribute, operator, value }
    }

    /// The value named by the attribute path (see `attribute_value`).
    fn extract_value<'a>(&self, context: &'a EvaluationContext) -> (r: Option<&'a AttrValue>)
        ensures
            match r {
                Some(v) => attribute_value(context@, self.attribute@) == Some(jv(*v)),
                None => attribute_value(context@, self.attribute@) is None,
            },
    {
        let parts = split_on_dots(self.attribute.as_str());
        proof { lemma_split_dots_nonempty(self.attribute@); }
        assert(string_views(parts@)[0] == parts@[0]@);
        if str_eq(parts[0].as_str(), "subject") {
            extract_from_map(&context.subject_attributes, &parts)
        } else if str_eq(parts[0].as_str(), "resource") {
            extract_from_map(&context.resource_attributes, &parts)
        } else if str_eq(parts[0].as_str(), "environment") {
            extract_from_map(&context.environment_attributes, &parts)
        } else {
            None
        }
    }

    /// Whether the condition holds: `NotExists` holds exactly when the
    /// attribute is absent, `Exists` when it is present; the other operators
    /// compare the attribute's value with the condition's and fail on an
    /// absent attribute.
    pub fn evaluate(&self, context: &EvaluationContext) -> (b: bool)
        ensures
            b == condition_holds(*self, context@),
            attribute_value(context@, self.attribute@) is None ==> b == (self.operator == ConditionOperator::NotExists),
            attribute_value(context@, self.attribute@) matches Some(JsonView::Str(a)) ==> (
                jv(self.value) matches JsonView::Str(v) ==> {
                    &&& self.operator == ConditionOperator::Contains ==> b == occurs_in(v, a)
                    &&& self.operator == ConditionOperator::StartsWith ==> b == is_prefix(v, a)
                    &&& self.operator == ConditionOperator::EndsWith ==> b == is_suffix(v, a)
                    &&& self.operator == ConditionOperator::Equals ==> b == (a == v)
                    &&& self.operator == ConditionOperator::NotEquals ==> b == (a != v)
                }),
            attribute_value(context@, self.attribute@) matches Some(JsonView::Number(x)) ==> (
                jv(self.value) matches JsonView::Number(y) ==> {
                    &&& self.operator == ConditionOperator::GreaterThan ==> b == (x > y)
                    &&& self.operator == ConditionOperator::GreaterThanOrEqual ==> b == (x >= y)
                    &&& self.operator == ConditionOperator::LessThan ==> b == (x < y)
                    &&& self.operator == ConditionOperator::LessThanOrEqual ==> b == (x <= y)
                    &&& self.operator == ConditionOperator::Equals ==> b == (x == y)
                }),
    {
        let actual = match self.extract_value(context) {
            Some(v) => v,
            None => {
                return self.operator == ConditionOperator::NotExists;
            },
        };
        if self.operator == ConditionOperator::Exists {
            return true;
        }
        if self.operator == ConditionOperator::NotExists {
            return false;
        }
        match self.operator {
            ConditionOperator::Equals => value_eq(actual, &self.value),
            ConditionOperator::NotEquals => !value_eq(actual, &self.value),
            ConditionOperator::GreaterThan | ConditionOperator::GreaterThanOrEqual
            | ConditionOperator::LessThan | ConditionOperator::LessThanOrEqual => {
                match (actual, &self.value) {
                    (AttrValue::Number(x), AttrValue::Number(y)) => match self.operator {
                        ConditionOperator::GreaterThan => *x > *y,
                        ConditionOperator::GreaterThanOrEqual => *x >= *y,
                        ConditionOperator::LessThan => *x < *y,
                        _ => *x <= *y,
                    },
                    _ => false,
                }
            },
            ConditionOperator::In => match &self.value {
                AttrValue::Array(items) => array_contains(items, actual),
                _ => false,
            },
            ConditionOperator::NotIn => match &self.value {
                AttrValue::Array(items) => !array_contains(items, actual),
                _ => true,
            },
            ConditionOperator::Contains => match (actual, &self.value) {
                (AttrValue::Str(s1), AttrValue::Str(s2)) => str_contains(s1.as_str(), s2.as_str()),
                _ => false,
            },
            ConditionOperator::StartsWith => match (actual, &self.value) {
                (AttrValue::Str(s1), AttrValue::Str(s2)) => str_starts_with(s1.as_str(), s2.as_str()),
                _ => false,
            },
            ConditionOperator::EndsWith => match (actual, &self.value) {
                (AttrValue::Str(s1), AttrValue::Str(s2)) => str_ends_with(s1.as_str(), s2.as_str()),
                _ => false,
            },
            ConditionOperator::Exists | ConditionOperator::NotExists => true,
        }
    }
}

/// Rule of an attribute-based policy.
#[derive(Debug)]
pub struct PolicyRule {
    pub id: String,
    pub effect: PolicyEffect,
    /// Resource types the rule applies to (all when empty).
    pub resources: Vec<ResourceType>,
    /// Actions the rule applies to (all when empty).
    pub actions: Vec<Action>,
    /// Conditions that must all hold.
    pub conditions: Vec<Condition>,
    pub description: Option<String>,
}

/// Whether `rule` applies to an access of kind `action` on a resource of kind `resource`.
pub open spec fn rule_applies(rule: PolicyRule, resource: ResourceKind, action: ActionKind) -> bool {
    &&& (rule.resources@.len() == 0 || exists|i: int| 0 <= i < rule.resources@.len() && (#[trigger] rule.resources@[i])@ == resource)
    &&& (rule.actions@.len() == 0 || exists|i: int| 0 <= i < rule.actions@.len() && (#[trigger] rule.actions@[i])@ == action)
}

impl PolicyRule {
    /// A rule without resources, actions, conditions or description.
    pub fn new(id: String, effect: PolicyEffect) -> (r: PolicyRule)
        ensures
            r.id == id,
            r.effect == effect,
            r.resources@.len() == 0,
            r.actions@.len() == 0,
            r.conditions@.len() == 0,
            r.description is None,
    {
        PolicyRule { id, effect, resources: Vec::new(), actions: Vec::new(), conditions: Vec::new(), description: None }
    }

    /// Adds a resource type.
    pub fn add_resource(self, resource: ResourceType) -> (r: PolicyRule)
        ensures
            r.resources@ == self.resources@.push(resource),
            r.id == self.id && r.effect == self.effect && r.actions == self.actions,
            r.conditions == self.conditions && r.description == self.description,
    {
        let mut r = self;
        r.resources.push(resource);
        r
    }

    /// Adds an action.
    pub fn add_action(self, action: Action) -> (r: PolicyRule)
        ensures
            r.actions@ == self.actions@.push(action),
            r.id == self.id && r.effect == self.effect && r.resources == self.resources,
            r.conditions == self.conditions && r.description == self.description,
    {
        let mut r = self;
        r.actions.push(action);
        r
    }

    /// Adds a condition.
    pub fn add_condition(self, condition: Condition) -> (r: PolicyRule)
        ensures
            r.conditions@ == self.conditions@.push(condition),
            r.id == self.id && r.effect == self.effect && r.resources == self.resources,
            r.actions == self.actions && r.description == self.description,
    {
        let mut r = self;
        r.conditions.push(condition);
        r
    }

    /// Sets the description.
    pub fn with_description(self, description: String) -> (r: PolicyRule)
        ensures
            r == (PolicyRule { description: Some(description), ..self }),
    {
        PolicyRule { description: Some(description), ..self }
    }

    /// Whether the rule applies to the resource type and action of `context`.
    pub fn applies_to(&self, context: &crate::authz::types::AuthzContext) -> (b: bool)
        ensures
            b == rule_applies(*self, context.resource.resource_type@, context.action@),
    {
        if self.resources.len() > 0 {
            let mut found = false;
            let mut i: usize = 0;
            while i < self.resources.len()
                invariant
                    i <= self.resources@.len(),
                    found == exists|j: int| 0 <= j < i && (#[trigger] self.resources@[j])@ == context.resource.resource_type@,
                decreases self.resources@.len() - i,
            {
                if self.resources[i].same(&context.resource.resource_type) {
                    found = true;
                }
                i += 1;
            }
            if !found {
                return false;
            }
        }
        if self.actions.len() > 0 {
            let mut found = false;
            let mut i: usize = 0;
            while i < self.actions.len()
                invariant
                    i <= self.actions@.len(),
                    found == exists|j: int| 0 <= j < i && (#[trigger] self.actions@[j])@ == context.action@,
                decreases self.actions@.len() - i,
            {
                if self.actions[i].same(&context.action) {
                    found = true;
                }
                i += 1;
            }
            if !found {
                return false;
            }
        }
        true
    }

    /// Whether all conditions hold, evaluated in order until one fails
    /// (see `conditions_outcome`).
    pub fn evaluate(&self, eval_context: &EvaluationContext) -> (b: bool)
        ensures
            b == conditions_outcome(self.conditions@, eval_context@),
    {
        let ghost conds = self.conditions@;
        let mut i: usize = 0;
        assert(conds.subrange(0, conds.len() as int) =~= conds);
        while i < self.conditions.len()
            invariant
                i <= conds.len(),
                conds == self.conditions@,
                conditions_outcome(conds.subrange(i as int, conds.len() as int), eval_context@)
                    == conditions_outcome(conds, eval_context@),
            decreases conds.len() - i,
        {
            let ghost rest = conds.subrange(i as int, conds.len() as int);
            assert(rest[0] == conds[i as int]);
            assert(rest.drop_first() =~= conds.subrange(i + 1, conds.len() as int));
            if !self.conditions[i].evaluate(eval_context) {
                return false;
            }
            i += 1;
        }
        true
    }
}

/// Attribute-based policy: an ordered list of rules.
#[derive(Debug)]
pub struct AbacPolicy {
    pub rules: Vec<PolicyRule>,
}

/// Whether `r` is the maintenance rule of the default policy: it denies every
/// access while the environment attribute "maintenance_mode" equals true.
pub open spec fn is_maintenance_rule(r: PolicyRule) -> bool {
    &&& r.id@ == "maintenance"@
    &&& r.effect == PolicyEffect::Deny
    &&& r.resources@.len() == 0
    &&& r.actions@.len() == 0
    &&& r.conditions@.len() == 1
    &&& r.conditions@[0].attribute@ == "environment.maintenance_mode"@
    &&& r.conditions@[0].operator == ConditionOperator::Equals
    &&& jv(r.conditions@[0].value) == JsonView::Bool(true)
    &&& r.description matches Some(d) && d@ == "Deny all access during maintenance"@
}

impl AbacPolicy {
    /// A policy without rules.
    pub fn new() -> (p: AbacPolicy)
        ensures
            p.rules@.len() == 0,
    {
        AbacPolicy { rules: Vec::new() }
    }

    /// Appends a rule.
    pub fn add_rule(self, rule: PolicyRule) -> (p: AbacPolicy)
        ensures
            p.rules@ == self.rules@.push(rule),
    {
        let mut p = self;
        p.rules.push(rule);
        p
    }

    /// The policy with the maintenance rule alone.
    pub fn default_policy() -> (p: AbacPolicy)
        ensures
            p.rules@.len() == 1,
            is_maintenance_rule(p.rules@[0]),
    {
        let condition = Condition::new(
            String::from_str("environment.maintenance_mode"),
            ConditionOperator::Equals,
            AttrValue::Bool(true),
        );
        let rule = PolicyRule::new(String::from_str("maintenance"), PolicyEffect::Deny)
            .add_condition(condition)
            .with_description(String::from_str("Deny all access during maintenance"));
        assert(rule.conditions@[0] == condition);
        let p = AbacPolicy::new().add_rule(rule);
        assert(p.rules@[0] == rule);
        p
    }
}

impl Default for AbacPolicy {
    fn default() -> (p: AbacPolicy)
        ensures
            p.rules@.len() == 0,
    {
        AbacPolicy::new()
    }
}

/// Result of evaluating an attribute-based policy.
#[derive(Debug, Clone, Copy, PartialEq, Eq, Structural)]
pub enum EvaluationResult {
    Allow,
    Deny,
    NotApplicable,
}

/// Evaluation of `rules` in order for an access of kind `action` on a
/// resource of kind `resource`: the first applicable rule whose conditions
/// hold with effect `Deny` decides `Deny`; otherwise `Allow` if such a rule
/// with effect `Allow` was met (`has_allow` says whether one was met before),
/// else `NotApplicable`.
pub open spec fn policy_outcome(
    rules: Seq<PolicyRule>,
    resource: ResourceKind,
    action: ActionKind,
    ctx: EvalView,
    has_allow: bool,
) -> EvaluationResult
    decreases rules.len(),
{
    if rules.len() == 0 {
        if has_allow { EvaluationResult::Allow } else { EvaluationResult::NotApplicable }
    } else if !rule_applies(rules[0], resource, action) || !conditions_outcome(rules[0].conditions@, ctx) {
        policy_outcome(rules.drop_first(), resource, action, ctx, has_allow)
    } else if rules[0].effect == PolicyEffect::Deny {
        EvaluationResult::Deny
    } else {
        policy_outcome(rules.drop_first(), resource, action, ctx, true)
    }
}

/// Whether rule `r` applies and its conditions hold.
pub open spec fn rule_fires(r: PolicyRule, resource: ResourceKind, action: ActionKind, ctx: EvalView) -> bool {
    rule_applies(r, resource, action) && conditions_outcome(r.conditions@, ctx)
}

/// An applicable deny rule whose conditions hold decides `Deny`, whatever
/// the other rules say.
pub proof fn lemma_deny_wins(
    rules: Seq<PolicyRule>,
    resource: ResourceKind,
    action: ActionKind,
    ctx: EvalView,
    has_allow: bool,
    k: int,
)
    requires
        0 <= k < rules.len(),
        rule_fires(rules[k], resource, action, ctx),
        rules[k].effect == PolicyEffect::Deny,
    ensures
        policy_outcome(rules, resource, action, ctx, has_allow) == EvaluationResult::Deny,
    decreases rules.len(),
{
    if k > 0 {
        let rest = rules.drop_first();
        assert(rest[k - 1] == rules[k]);
        if rule_fires(rules[0], resource, action, ctx) && rules[0].effect == PolicyEffect::Deny {
        } else if rule_fires(rules[0], resource, action, ctx) {
            lemma_deny_wins(rest, resource, action, ctx, true, k - 1);
        } else {
            lemma_deny_wins(rest, resource, action, ctx, has_allow, k - 1);
        }
    }
}

/// `Allow` is decided only by an applicable allow rule whose conditions hold
/// (or one met before), and no applicable deny rule holds.
pub proof fn lemma_allow_needs_allow_rule(
    rules: Seq<PolicyRule>,
    resource: ResourceKind,
    action: ActionKind,
    ctx: EvalView,
    has_allow: bool,
)
    requires
        policy_outcome(rules, resource, action, ctx, has_allow) == EvaluationResult::Allow,
    ensures
        has_allow || exists|k: int| 0 <= k < rules.len() && #[trigger] rule_fires(rules[k], resource, action, ctx)
            && rules[k].effect == PolicyEffect::Allow,
        forall|k: int| 0 <= k < rules.len() && #[trigger] rule_fires(rules[k], resource, action, ctx)
            ==> rules[k].effect == PolicyEffect::Allow,
    decreases rules.len(),
{
    if rules.len() > 0 {
        let rest = rules.drop_first();
        let fires = rule_fires(rules[0], resource, action, ctx);
        lemma_allow_needs_allow_rule(rest, resource, action, ctx, has_allow || fires);
        assert forall|k: int| 0 <= k < rules.len() && #[trigger] rule_fires(rules[k], resource, action, ctx)
            implies rules[k].effect == PolicyEffect::Allow by {
            if k > 0 {
                assert(rest[k - 1] == rules[k]);
            }
        }
        if !has_allow && !fires {
            let j = choose|j: int| 0 <= j < rest.len() && #[trigger] rule_fires(rest[j], resource, action, ctx)
                && rest[j].effect == PolicyEffect::Allow;
            assert(rules[j + 1] == rest[j]);
        }
    }
}

/// `NotApplicable` is decided exactly when no rule applies with holding conditions.
pub proof fn lemma_not_applicable(
    rules: Seq<PolicyRule>,
    resource: ResourceKind,
    action: ActionKind,
    ctx: EvalView,
)
    ensures
        policy_outcome(rules, resource, action, ctx, false) == EvaluationResult::NotApplicable
            <==> forall|k: int| 0 <= k < rules.len() ==> !#[trigger] rule_fires(rules[k], resource, action, ctx),
    decreases rules.len(),
{
    if rules.len() > 0 {
        let rest = rules.drop_first();
        if !rule_fires(rules[0], resource, action, ctx) {
            lemma_not_applicable(rest, resource, action, ctx);
            assert forall|k: int| 0 <= k < rules.len() && #[trigger] rule_fires(rules[k], resource, action, ctx) implies k > 0 && rule_fires(rest[k - 1], resource, action, ctx) by {
                assert(rest[k - 1] == rules[k]);
            }
            assert forall|j: int| 0 <= j < rest.len() && #[trigger] rule_fires(rest[j], resource, action, ctx) implies rule_fires(rules[j + 1], resource, action, ctx) by {
                assert(rules[j + 1] == rest[j]);
            }
        } else if rules[0].effect == PolicyEffect::Allow {
            lemma_allow_outcome_sticks(rest, resource, action, ctx);
        }
    }
}

/// Once an allow rule has fired, the outcome is `Allow` or `Deny`.
proof fn lemma_allow_outcome_sticks(rules: Seq<PolicyRule>, resource: ResourceKind, action: ActionKind, ctx: EvalView)
    ensures
        policy_outcome(rules, resource, action, ctx, true) != EvaluationResult::NotApplicable,
    decreases rules.len(),
{
    if rules.len() > 0 {
        lemma_allow_outcome_sticks(rules.drop_first(), resource, action, ctx);
    }
}

/// Some rule of `rules` fires with effect `effect`.
pub open spec fn some_rule_fires(
    rules: Seq<PolicyRule>,
    resource: ResourceKind,
    action: ActionKind,
    ctx: EvalView,
    effect: PolicyEffect,
) -> bool {
    exists|k: int| 0 <= k < rules.len() && #[trigger] rule_fires(rules[k], resource, action, ctx) && rules[k].effect == effect
}

proof fn lemma_policy_outcome_by_effects_from(
    rules: Seq<PolicyRule>,
    resource: ResourceKind,
    action: ActionKind,
    ctx: EvalView,
    has_allow: bool,
)
    ensures
        policy_outcome(rules, resource, action, ctx, has_allow) == (
            if some_rule_fires(rules, resource, action, ctx, PolicyEffect::Deny) {
                EvaluationResult::Deny
            } else if has_allow || some_rule_fires(rules, resource, action, ctx, PolicyEffect::Allow) {
                EvaluationResult::Allow
            } else {
                EvaluationResult::NotApplicable
            }),
    decreases rules.len(),
{
    if rules.len() > 0 {
        let rest = rules.drop_first();
        let fires = rule_fires(rules[0], resource, action, ctx);
        let deny0 = fires && rules[0].effect == PolicyEffect::Deny;
        lemma_policy_outcome_by_effects_from(rest, resource, action, ctx,
            has_allow || (fires && rules[0].effect == PolicyEffect::Allow));
        assert forall|e: PolicyEffect| #![trigger some_rule_fires(rules, resource, action, ctx, e)]
            some_rule_fires(rules, resource, action, ctx, e)
            <==> ((fires && rules[0].effect == e) || some_rule_fires(rest, resource, action, ctx, e)) by {
            if some_rule_fires(rules, resource, action, ctx, e) {
                let k = choose|k: int| 0 <= k < rules.len() && #[trigger] rule_fires(rules[k], resource, action, ctx)
                    && rules[k].effect == e;
                if k > 0 {
                    assert(rest[k - 1] == rules[k]);
                }
            }
            if some_rule_fires(rest, resource, action, ctx, e) {
                let j = choose|j: int| 0 <= j < rest.len() && #[trigger] rule_fires(rest[j], resource, action, ctx)
                    && rest[j].effect == e;
                assert(rules[j + 1] == rest[j]);
            }
        }
        assert(some_rule_fires(rules, resource, action, ctx, PolicyEffect::Deny)
            <==> (deny0 || some_rule_fires(rest, resource, action, ctx, PolicyEffect::Deny)));
        assert(some_rule_fires(rules, resource, action, ctx, PolicyEffect::Allow)
            <==> ((fires && rules[0].effect == PolicyEffect::Allow) || some_rule_fires(rest, resource, action, ctx, PolicyEffect::Allow)));
    }
}

/// The outcome of a policy depends only on which rules fire, not on their
/// order: `Deny` when some deny rule fires, else `Allow` when some allow rule
/// fires, else `NotApplicable`.
pub proof fn lemma_policy_outcome_by_effects(
    rules: Seq<PolicyRule>,
    resource: ResourceKind,
    action: ActionKind,
    ctx: EvalView,
)
    ensures
        policy_outcome(rules, resource, action, ctx, false) == (
            if some_rule_fires(rules, resource, action, ctx, PolicyEffect::Deny) {
                EvaluationResult::Deny
            } else if some_rule_fires(rules, resource, action, ctx, PolicyEffect::Allow) {
                EvaluationResult::Allow
            } else {
                EvaluationResult::NotApplicable
            }),
{
    lemma_policy_outcome_by_effects_from(rules, resource, action, ctx, false);
}

/// Two policies holding the same rules, in any order and number, decide alike.
pub proof fn lemma_policy_outcome_order_free(
    rules1: Seq<PolicyRule>,
    rules2: Seq<PolicyRule>,
    resource: ResourceKind,
    action: ActionKind,
    ctx: EvalView,
)
    requires
        rules1.to_set() == rules2.to_set(),
    ensures
        policy_outcome(rules1, resource, action, ctx, false) == policy_outcome(rules2, resource, action, ctx, false),
{
    lemma_policy_outcome_by_effects(rules1, resource, action, ctx);
    lemma_policy_outcome_by_effects(rules2, resource, action, ctx);
    assert forall|e: PolicyEffect| #![trigger some_rule_fires(rules1, resource, action, ctx, e)]
        some_rule_fires(rules1, resource, action, ctx, e) ==> some_rule_fires(rules2, resource, action, ctx, e) by {
        if some_rule_fires(rules1, resource, action, ctx, e) {
            let k = choose|k: int| 0 <= k < rules1.len() && #[trigger] rule_fires(rules1[k], resource, action, ctx)
                && rules1[k].effect == e;
            assert(rules1.to_set().contains(rules1[k]));
            assert(rules2.to_set().contains(rules1[k]));
            let j = choose|j: int| 0 <= j < rules2.len() && rules2[j] == rules1[k];
            assert(rule_fires(rules2[j], resource, action, ctx));
        }
    }
    assert forall|e: PolicyEffect| #![trigger some_rule_fires(rules2, resource, action, ctx, e)]
        some_rule_fires(rules2, resource, action, ctx, e) ==> some_rule_fires(rules1, resource, action, ctx, e) by {
        if some_rule_fires(rules2, resource, action, ctx, e) {
            let k = choose|k: int| 0 <= k < rules2.len() && #[trigger] rule_fires(rules2[k], resource, action, ctx)
                && rules2[k].effect == e;
            assert(rules2.to_set().contains(rules2[k]));
            assert(rules1.to_set().contains(rules2[k]));
            let j = choose|j: int| 0 <= j < rules1.len() && rules1[j] == rules2[k];
            assert(rule_fires(rules1[j], resource, action, ctx));
        }
    }
    assert(some_rule_fires(rules1, resource, action, ctx, PolicyEffect::Deny) == some_rule_fires(rules2, resource, action, ctx, PolicyEffect::Deny));
    assert(some_rule_fires(rules1, resource, action, ctx, PolicyEffect::Allow) == some_rule_fires(rules2, resource, action, ctx, PolicyEffect::Allow));
}

/// Evaluates an attribute-based policy.
pub struct PolicyEvaluator {
    policy: AbacPolicy,
}

impl View for PolicyEvaluator {
    type V = Seq<PolicyRule>;

    closed spec fn view(&self) -> Seq<PolicyRule> {
        self.policy.rules@
    }
}

impl PolicyEvaluator {
    /// An evaluator of `policy`.
    pub fn new(policy: AbacPolicy) -> (e: PolicyEvaluator)
        ensures
            e@ == policy.rules@,
    {
        PolicyEvaluator { policy }
    }

    /// The outcome of the rules for `context` (see `policy_outcome`), over the
    /// attributes that `EvaluationContext::from_authz_context` gives.
    pub fn evaluate(&self, context: &AuthzContext) -> (r: Result<EvaluationResult, AuthzError>)
        ensures
            r == Ok::<EvaluationResult, AuthzError>(
                policy_outcome(self@, context.resource.resource_type@, context.action@, eval_view_of(*context), false)),
    {
        Ok(evaluate_rules(&self.policy, context))
    }
}

/// The outcome of the rules of `policy` for `context` (see `policy_outcome`),
/// over the attributes that `EvaluationContext::from_authz_context` gives.
pub fn evaluate_rules(policy: &AbacPolicy, context: &AuthzContext) -> (r: EvaluationResult)
    ensures
        r == policy_outcome(policy.rules@, context.resource.resource_type@, context.action@, eval_view_of(*context), false),
{
    let eval_context = EvaluationContext::from_authz_context(context);
    let ghost rules = policy.rules@;
    let ghost rk = context.resource.resource_type@;
    let ghost ak = context.action@;
    let ghost ev = eval_view_of(*context);
    let mut has_allow = false;
    let mut i: usize = 0;
    assert(rules.subrange(0, rules.len() as int) =~= rules);
    while i < policy.rules.len()
        invariant
            i <= rules.len(),
            rules == policy.rules@,
            rk == context.resource.resource_type@,
            ak == context.action@,
            ev == eval_view_of(*context),
            eval_context@ == ev,
            policy_outcome(rules.subrange(i as int, rules.len() as int), rk, ak, ev, has_allow)
                == policy_outcome(rules, rk, ak, ev, false),
        decreases rules.len() - i,
    {
        let rule = &policy.rules[i];
        let ghost rest = rules.subrange(i as int, rules.len() as int);
        assert(rest[0] == rules[i as int]);
        assert(rest.drop_first() =~= rules.subrange(i + 1, rules.len() as int));
        if rule.applies_to(context) && rule.evaluate(&eval_context) {
            match rule.effect {
                PolicyEffect::Deny => {
                    return EvaluationResult::Deny;
                },
                PolicyEffect::Allow => {
                    has_allow = true;
                },
            }
        }
        i += 1;
    }
    if has_allow {
        EvaluationResult::Allow
    } else {
        EvaluationResult::NotApplicable
    }
}

} // verus!
