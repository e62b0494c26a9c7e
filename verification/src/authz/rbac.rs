//! Role-based access control: role definitions, a role hierarchy with
//! inherited permissions and cycle detection, policies and role assignments.
use vstd::prelude::*;
use crate::domain::user::UserDomain;
use crate::keyed::{pairs_map, keys_unique, lemma_pairs_map, lemma_pairs_map_push, lemma_pairs_map_update};
use crate::text::str_eq;
use crate::authz::types::{Role, RoleView, Permission, PermissionView, ResourceType, ResourceKind, Action, ActionKind, AuthzError, role_views};

verus! {

broadcast use vstd::set_lib::group_set_lib_default;

/// What the hierarchy knows of one role: its direct permissions, in order the
/// roles it inherits from, and its description.
pub struct RoleNode {
    pub perms: Set<PermissionView>,
    pub parents: Seq<RoleView>,
    pub description: Option<Seq<char>>,
}

/// Failure of a traversal of the hierarchy.
pub enum WalkError {
    /// A role was reached a second time.
    Circular,
    /// A role without definition was reached (named by its role name).
    NotFound(Seq<char>),
}

/// Depth-first traversal of the hierarchy `m`, in order, of the roles in
/// `todo` and of their ancestors. `path` holds the roles whose traversal is
/// under way (the chain of inheritance being followed) and `done` the roles
/// already traversed. Reaching a role of `path` closes a cycle and fails with
/// `Circular`; a role of `done` is passed over, so that a role inherited along
/// two routes is traversed once. A role without definition fails with
/// `NotFound` when `strict`, and is otherwise passed over. On success the
/// result holds the roles traversed so far and the permissions of the defined
/// roles traversed.
pub open spec fn walk(
    m: Map<RoleView, RoleNode>,
    todo: Seq<RoleView>,
    path: Set<RoleView>,
    done: Set<RoleView>,
    strict: bool,
) -> Result<(Set<RoleView>, Set<PermissionView>), WalkError>
    decreases m.dom().difference(path).len(), todo.len(),
    when m.dom().finite()
{
    if todo.len() == 0 {
        Ok((done, Set::empty()))
    } else {
        let r = todo[0];
        let rest = todo.drop_first();
        if path.contains(r) {
            Err(WalkError::Circular)
        } else if done.contains(r) {
            walk(m, rest, path, done, strict)
        } else if !m.contains_key(r) {
            if strict {
                Err(WalkError::NotFound(r.0))
            } else {
                walk(m, rest, path, done.insert(r), strict)
            }
        } else {
            proof {
                m.dom().lemma_set_insert_diff_decreases(path, r);
            }
            match walk(m, m[r].parents, path.insert(r), done, strict) {
                Ok((d1, p1)) => match walk(m, rest, path, d1.insert(r), strict) {
                    Ok((d2, p2)) => Ok((d2, m[r].perms.union(p1).union(p2))),
                    Err(e) => Err(e),
                },
                Err(e) => Err(e),
            }
        }
    }
}

/// Traversing `a` then `b` is traversing `a + b`.
pub proof fn lemma_walk_append(
    m: Map<RoleView, RoleNode>,
    a: Seq<RoleView>,
    b: Seq<RoleView>,
    path: Set<RoleView>,
    done: Set<RoleView>,
    strict: bool,
)
    requires
        m.dom().finite(),
    ensures
        walk(m, a + b, path, done, strict) == (match walk(m, a, path, done, strict) {
            Ok((d1, p1)) => match walk(m, b, path, d1, strict) {
                Ok((d2, p2)) => Ok((d2, p1.union(p2))),
                Err(e) => Err(e),
            },
            Err(e) => Err(e),
        }),
    decreases a.len(),
{
    if a.len() == 0 {
        assert(a + b =~= b);
        match walk(m, b, path, done, strict) {
            Ok((d2, p2)) => { assert(Set::<PermissionView>::empty().union(p2) =~= p2); },
            Err(e) => {},
        }
    } else {
        let r = a[0];
        let rest = a.drop_first();
        assert((a + b)[0] == r);
        assert((a + b).drop_first() =~= rest + b);
        if path.contains(r) {
        } else if done.contains(r) {
            lemma_walk_append(m, rest, b, path, done, strict);
        } else if !m.contains_key(r) {
            if !strict {
                lemma_walk_append(m, rest, b, path, done.insert(r), strict);
            }
        } else {
            match walk(m, m[r].parents, path.insert(r), done, strict) {
                Ok((d1, p1)) => {
                    lemma_walk_append(m, rest, b, path, d1.insert(r), strict);
                    match walk(m, rest, path, d1.insert(r), strict) {
                        Ok((d2, p2)) => match walk(m, b, path, d2, strict) {
                            Ok((d3, p3)) => {
                                assert(m[r].perms.union(p1).union(p2.union(p3))
                                    =~= m[r].perms.union(p1).union(p2).union(p3));
                            },
                            Err(e) => {},
                        },
                        Err(e) => {},
                    }
                },
                Err(e) => {},
            }
        }
    }
}

/// A traversal that passes over undefined roles can only fail by closing a
/// cycle.
pub proof fn lemma_walk_lenient(
    m: Map<RoleView, RoleNode>,
    todo: Seq<RoleView>,
    path: Set<RoleView>,
    done: Set<RoleView>,
)
    requires
        m.dom().finite(),
    ensures
        walk(m, todo, path, done, false) is Err
            ==> walk(m, todo, path, done, false) == Err::<(Set<RoleView>, Set<PermissionView>), WalkError>(WalkError::Circular),
    decreases m.dom().difference(path).len(), todo.len(),
{
    if todo.len() > 0 {
        let r = todo[0];
        let rest = todo.drop_first();
        if path.contains(r) {
        } else if done.contains(r) {
            lemma_walk_lenient(m, rest, path, done);
        } else if !m.contains_key(r) {
            lemma_walk_lenient(m, rest, path, done.insert(r));
        } else {
            m.dom().lemma_set_insert_diff_decreases(path, r);
            lemma_walk_lenient(m, m[r].parents, path.insert(r), done);
            match walk(m, m[r].parents, path.insert(r), done, false) {
                Ok((d1, p1)) => { lemma_walk_lenient(m, rest, path, d1.insert(r)); },
                Err(e) => {},
            }
        }
    }
}

/// `rank` strictly decreases along inheritance in `m`: every defined role
/// ranks above each role it inherits from.
pub open spec fn ranked(m: Map<RoleView, RoleNode>, rank: spec_fn(RoleView) -> nat) -> bool {
    forall|a: RoleView, i: int| #![trigger m[a].parents[i]]
        m.contains_key(a) && 0 <= i < m[a].parents.len() ==> rank(m[a].parents[i]) < rank(a)
}

/// The hierarchy has no cycle of inheritance: some rank strictly decreases
/// from each role to the roles it inherits from.
pub open spec fn acyclic(m: Map<RoleView, RoleNode>) -> bool {
    exists|rank: spec_fn(RoleView) -> nat| ranked(m, rank)
}

/// `done` holds every role that a defined role of `done` inherits from.
pub open spec fn closed_under_parents(m: Map<RoleView, RoleNode>, done: Set<RoleView>) -> bool {
    forall|a: RoleView, i: int| #![trigger done.contains(a), m[a].parents[i]]
        done.contains(a) && m.contains_key(a) && 0 <= i < m[a].parents.len() ==> done.contains(m[a].parents[i])
}

/// A lenient traversal that succeeds ends with the roles traversed closed
/// under inheritance, apart from the chain being followed, and holding every
/// role it was given.
proof fn lemma_walk_closed(
    m: Map<RoleView, RoleNode>,
    todo: Seq<RoleView>,
    path: Set<RoleView>,
    done: Set<RoleView>,
)
    requires
        m.dom().finite(),
        closed_under_parents(m, done),
        forall|x: RoleView| done.contains(x) ==> !path.contains(x),
    ensures
        walk(m, todo, path, done, false) matches Ok((d2, p)) ==> {
            &&& closed_under_parents(m, d2)
            &&& forall|x: RoleView| d2.contains(x) ==> !path.contains(x)
            &&& done.subset_of(d2)
            &&& forall|i: int| 0 <= i < todo.len() ==> d2.contains(todo[i])
        },
    decreases m.dom().difference(path).len(), todo.len(),
{
    if todo.len() > 0 {
        let r = todo[0];
        let rest = todo.drop_first();
        if path.contains(r) {
        } else if done.contains(r) {
            lemma_walk_closed(m, rest, path, done);
            if walk(m, todo, path, done, false) is Ok {
                let d2 = walk(m, todo, path, done, false)->Ok_0.0;
                assert forall|i: int| 0 <= i < todo.len() implies d2.contains(todo[i]) by {
                    if i > 0 {
                        assert(todo[i] == rest[i - 1]);
                    }
                }
            }
        } else if !m.contains_key(r) {
            let done1 = done.insert(r);
            assert forall|a: RoleView, i: int| done1.contains(a) && m.contains_key(a) && 0 <= i < m[a].parents.len()
                implies done1.contains(m[a].parents[i]) by {
                if a != r {
                    assert(done.contains(a));
                }
            }
            lemma_walk_closed(m, rest, path, done1);
            if walk(m, todo, path, done, false) is Ok {
                let d2 = walk(m, todo, path, done, false)->Ok_0.0;
                assert forall|i: int| 0 <= i < todo.len() implies d2.contains(todo[i]) by {
                    if i > 0 {
                        assert(todo[i] == rest[i - 1]);
                    }
                }
            }
        } else {
            m.dom().lemma_set_insert_diff_decreases(path, r);
            let pr = path.insert(r);
            lemma_walk_closed(m, m[r].parents, pr, done);
            match walk(m, m[r].parents, pr, done, false) {
                Ok((d1, p1)) => {
                    let done2 = d1.insert(r);
                    assert forall|a: RoleView, i: int| done2.contains(a) && m.contains_key(a) && 0 <= i < m[a].parents.len()
                        implies done2.contains(m[a].parents[i]) by {
                        if a == r {
                            assert(d1.contains(m[r].parents[i]));
                        } else {
                            assert(d1.contains(a));
                        }
                    }
                    assert forall|x: RoleView| done2.contains(x) implies !path.contains(x) by {
                        if x != r {
                            assert(d1.contains(x));
                            assert(!pr.contains(x));
                        }
                    }
                    lemma_walk_closed(m, rest, path, done2);
                    if walk(m, todo, path, done, false) is Ok {
                        let d2 = walk(m, todo, path, done, false)->Ok_0.0;
                        assert forall|i: int| 0 <= i < todo.len() implies d2.contains(todo[i]) by {
                            if i > 0 {
                                assert(todo[i] == rest[i - 1]);
                            }
                        }
                    }
                },
                Err(e) => {},
            }
        }
    }
}

/// On a ranked hierarchy, a traversal whose roles all rank below the chain
/// being followed never closes a cycle.
proof fn lemma_walk_ranked(
    m: Map<RoleView, RoleNode>,
    rank: spec_fn(RoleView) -> nat,
    todo: Seq<RoleView>,
    path: Set<RoleView>,
    done: Set<RoleView>,
    strict: bool,
)
    requires
        m.dom().finite(),
        ranked(m, rank),
        forall|i: int, y: RoleView| #![trigger todo[i], path.contains(y)]
            0 <= i < todo.len() && path.contains(y) ==> rank(todo[i]) < rank(y),
    ensures
        walk(m, todo, path, done, strict) != Err::<(Set<RoleView>, Set<PermissionView>), WalkError>(WalkError::Circular),
    decreases m.dom().difference(path).len(), todo.len(),
{
    if todo.len() > 0 {
        let r = todo[0];
        let rest = todo.drop_first();
        assert forall|i: int, y: RoleView| #![trigger rest[i], path.contains(y)]
            0 <= i < rest.len() && path.contains(y) implies rank(rest[i]) < rank(y) by {
            assert(rest[i] == todo[i + 1]);
        }
        if path.contains(r) {
            assert(rank(todo[0]) < rank(r));
        } else if done.contains(r) {
            lemma_walk_ranked(m, rank, rest, path, done, strict);
        } else if !m.contains_key(r) {
            if !strict {
                lemma_walk_ranked(m, rank, rest, path, done.insert(r), strict);
            }
        } else {
            m.dom().lemma_set_insert_diff_decreases(path, r);
            let ps = m[r].parents;
            assert forall|i: int, y: RoleView| #![trigger ps[i], path.insert(r).contains(y)]
                0 <= i < ps.len() && path.insert(r).contains(y) implies rank(ps[i]) < rank(y) by {
                assert(rank(m[r].parents[i]) < rank(r));
                if y != r {
                    assert(rank(todo[0]) < rank(y));
                }
            }
            lemma_walk_ranked(m, rank, ps, path.insert(r), done, strict);
            match walk(m, ps, path.insert(r), done, strict) {
                Ok((d1, p1)) => {
                    lemma_walk_ranked(m, rank, rest, path, d1.insert(r), strict);
                },
                Err(e) => {},
            }
        }
    }
}

/// The sum of the ranks of `s`.
pub open spec fn rank_sum(rank: spec_fn(RoleView) -> nat, s: Seq<RoleView>) -> nat
    decreases s.len(),
{
    if s.len() == 0 {
        0
    } else {
        rank_sum(rank, s.drop_last()) + rank(s.last())
    }
}

proof fn lemma_rank_sum_bounds(rank: spec_fn(RoleView) -> nat, s: Seq<RoleView>, i: int)
    requires
        0 <= i < s.len(),
    ensures
        rank(s[i]) <= rank_sum(rank, s),
    decreases s.len(),
{
    if i < s.len() - 1 {
        lemma_rank_sum_bounds(rank, s.drop_last(), i);
    }
}

/// A definition that the hierarchy admits keeps it free of cycles.
pub proof fn lemma_admitted_definition_keeps_acyclic(m: Map<RoleView, RoleNode>, d: RoleDefinition)
    requires
        m.dom().finite(),
        acyclic(m),
        admits_definition(m, d),
    ensures
        acyclic(m.insert(d.role@, node_of(d))),
{
    let rank = choose|rank: spec_fn(RoleView) -> nat| ranked(m, rank);
    let parents = role_views(d.inherits_from@);
    let top = d.role@;
    assert(closed_under_parents(m, Set::empty()));
    lemma_walk_closed(m, parents, set![top], Set::empty());
    let c = walk(m, parents, set![top], Set::empty(), false)->Ok_0.0;
    let bound = rank_sum(rank, parents) + 1;
    let rank2 = |x: RoleView| if c.contains(x) { rank(x) } else { rank(x) + bound };
    let m2 = m.insert(top, node_of(d));
    assert(!c.contains(top));
    assert forall|a: RoleView, i: int| m2.contains_key(a) && 0 <= i < m2[a].parents.len()
        implies rank2(#[trigger] m2[a].parents[i]) < rank2(a) by {
        if a == top {
            assert(m2[a].parents == parents);
            assert(c.contains(parents[i]));
            lemma_rank_sum_bounds(rank, parents, i);
        } else {
            assert(m2[a] == m[a]);
            assert(rank(m[a].parents[i]) < rank(a));
            if c.contains(a) {
                assert(c.contains(m[a].parents[i]));
            }
        }
    }
    assert(ranked(m2, rank2));
}

/// Role `c[i]` is defined in `m` and inherits from `c[i + 1]`.
pub open spec fn chain_step(m: Map<RoleView, RoleNode>, c: Seq<RoleView>, i: int) -> bool {
    m.contains_key(c[i]) && m[c[i]].parents.contains(c[i + 1])
}

/// `c` is a chain of inheritance in `m`: each of its roles but the last is
/// defined and inherits from the next.
pub open spec fn is_chain(m: Map<RoleView, RoleNode>, c: Seq<RoleView>) -> bool {
    c.len() >= 1 && forall|i: int| 0 <= i < c.len() - 1 ==> #[trigger] chain_step(m, c, i)
}

/// `b` is reachable from `a` in `m`: `a` is `b`, or inherits from it,
/// directly or through roles defined in `m`.
pub open spec fn reaches(m: Map<RoleView, RoleNode>, a: RoleView, b: RoleView) -> bool {
    exists|c: Seq<RoleView>| #[trigger] is_chain(m, c) && c[0] == a && c.last() == b
}

/// A chain that starts in a set closed under inheritance stays in it.
proof fn lemma_chain_in_closed(m: Map<RoleView, RoleNode>, done: Set<RoleView>, c: Seq<RoleView>, k: int)
    requires
        is_chain(m, c),
        done.contains(c[0]),
        closed_under_parents(m, done),
        0 <= k < c.len(),
    ensures
        done.contains(c[k]),
    decreases k,
{
    if k > 0 {
        lemma_chain_in_closed(m, done, c, k - 1);
        assert(chain_step(m, c, k - 1));
        let a = c[k - 1];
        let j = choose|j: int| 0 <= j < m[a].parents.len() && m[a].parents[j] == c[k];
        assert(done.contains(m[a].parents[j]));
    }
}

/// On a ranked hierarchy, a lenient traversal closes no cycle when none of
/// its roles reaches `top` and all rank below the other roles of the chain
/// being followed.
proof fn lemma_walk_unreachable(
    m: Map<RoleView, RoleNode>,
    rank: spec_fn(RoleView) -> nat,
    top: RoleView,
    todo: Seq<RoleView>,
    path: Set<RoleView>,
    done: Set<RoleView>,
)
    requires
        m.dom().finite(),
        ranked(m, rank),
        forall|i: int| 0 <= i < todo.len() ==> !reaches(m, #[trigger] todo[i], top),
        forall|i: int, y: RoleView| #![trigger todo[i], path.contains(y)]
            0 <= i < todo.len() && path.contains(y) && y != top ==> rank(todo[i]) < rank(y),
    ensures
        walk(m, todo, path, done, false) != Err::<(Set<RoleView>, Set<PermissionView>), WalkError>(WalkError::Circular),
    decreases m.dom().difference(path).len(), todo.len(),
{
    if todo.len() > 0 {
        let r = todo[0];
        let rest = todo.drop_first();
        assert forall|i: int| 0 <= i < rest.len() implies !reaches(m, #[trigger] rest[i], top) by {
            assert(rest[i] == todo[i + 1]);
        }
        assert forall|i: int, y: RoleView| #![trigger rest[i], path.contains(y)]
            0 <= i < rest.len() && path.contains(y) && y != top implies rank(rest[i]) < rank(y) by {
            assert(rest[i] == todo[i + 1]);
        }
        if path.contains(r) {
            if r == top {
                assert(is_chain(m, seq![r]));
                assert(!reaches(m, todo[0], top));
            } else {
                assert(rank(todo[0]) < rank(r));
            }
        } else if done.contains(r) {
            lemma_walk_unreachable(m, rank, top, rest, path, done);
        } else if !m.contains_key(r) {
            lemma_walk_unreachable(m, rank, top, rest, path, done.insert(r));
        } else {
            m.dom().lemma_set_insert_diff_decreases(path, r);
            let ps = m[r].parents;
            assert(!reaches(m, todo[0], top));
            assert forall|i: int| 0 <= i < ps.len() implies !reaches(m, #[trigger] ps[i], top) by {
                if reaches(m, ps[i], top) {
                    let c = choose|c: Seq<RoleView>| #[trigger] is_chain(m, c) && c[0] == ps[i] && c.last() == top;
                    let c2 = seq![r] + c;
                    assert(chain_step(m, c2, 0)) by {
                        assert(c2[0] == r && c2[1] == c[0]);
                        assert(ps.contains(ps[i]));
                    }
                    assert forall|j: int| 0 <= j < c2.len() - 1 implies #[trigger] chain_step(m, c2, j) by {
                        if j > 0 {
                            assert(c2[j] == c[j - 1] && c2[j + 1] == c[j]);
                            assert(chain_step(m, c, j - 1));
                        }
                    }
                    assert(is_chain(m, c2) && c2[0] == r && c2.last() == top);
                }
            }
            assert forall|i: int, y: RoleView| #![trigger ps[i], path.insert(r).contains(y)]
                0 <= i < ps.len() && path.insert(r).contains(y) && y != top implies rank(ps[i]) < rank(y) by {
                assert(rank(m[r].parents[i]) < rank(r));
                if y != r {
                    assert(rank(todo[0]) < rank(y));
                }
            }
            lemma_walk_unreachable(m, rank, top, ps, path.insert(r), done);
            match walk(m, ps, path.insert(r), done, false) {
                Ok((d1, p1)) => {
                    lemma_walk_unreachable(m, rank, top, rest, path, d1.insert(r));
                },
                Err(e) => {},
            }
        }
    }
}

/// On a hierarchy free of cycles, a definition is admitted exactly when its
/// role is reachable from none of the roles it inherits from.
pub proof fn lemma_admits_iff_unreachable(m: Map<RoleView, RoleNode>, d: RoleDefinition)
    requires
        m.dom().finite(),
        acyclic(m),
    ensures
        admits_definition(m, d) <==> !exists|i: int| 0 <= i < d.inherits_from@.len()
            && reaches(m, #[trigger] role_views(d.inherits_from@)[i], d.role@),
{
    let parents = role_views(d.inherits_from@);
    let top = d.role@;
    assert(parents.len() == d.inherits_from@.len());
    if admits_definition(m, d) {
        assert(closed_under_parents(m, Set::empty()));
        lemma_walk_closed(m, parents, set![top], Set::empty());
        let c = walk(m, parents, set![top], Set::empty(), false)->Ok_0.0;
        assert forall|i: int| 0 <= i < d.inherits_from@.len() implies !reaches(m, #[trigger] parents[i], top) by {
            if reaches(m, parents[i], top) {
                let ch = choose|ch: Seq<RoleView>| #[trigger] is_chain(m, ch) && ch[0] == parents[i] && ch.last() == top;
                lemma_chain_in_closed(m, c, ch, ch.len() - 1);
            }
        }
    } else {
        if !exists|i: int| 0 <= i < d.inherits_from@.len() && reaches(m, #[trigger] role_views(d.inherits_from@)[i], d.role@) {
            let rank = choose|rank: spec_fn(RoleView) -> nat| ranked(m, rank);
            lemma_walk_unreachable(m, rank, top, parents, set![top], Set::empty());
            lemma_walk_lenient(m, parents, set![top], Set::empty());
        }
    }
}

/// On a hierarchy free of cycles, the permissions of a role never fail by
/// closing a cycle.
pub proof fn lemma_acyclic_permissions_not_circular(m: Map<RoleView, RoleNode>, role: RoleView)
    requires
        m.dom().finite(),
        acyclic(m),
    ensures
        all_permissions(m, role) != Err::<Set<PermissionView>, WalkError>(WalkError::Circular),
{
    let rank = choose|rank: spec_fn(RoleView) -> nat| ranked(m, rank);
    lemma_walk_ranked(m, rank, seq![role], Set::empty(), Set::empty(), true);
}

/// Whether `d` can join the hierarchy `m`: the traversal from the parents of
/// `d`, with the role of `d` on the chain of inheritance, closes no cycle
/// (roles without definition are passed over).
pub open spec fn admits_definition(m: Map<RoleView, RoleNode>, d: RoleDefinition) -> bool {
    walk(m, role_views(d.inherits_from@), set![d.role@], Set::empty(), false) is Ok
}

/// The permissions of `role` and of the roles it inherits from, or the
/// failure of the traversal from it.
pub open spec fn all_permissions(m: Map<RoleView, RoleNode>, role: RoleView) -> Result<Set<PermissionView>, WalkError> {
    match walk(m, seq![role], Set::empty(), Set::empty(), true) {
        Ok((v, p)) => Ok(p),
        Err(e) => Err(e),
    }
}

/// The union of `all_permissions` over `roles`, or the first failure, in order.
pub open spec fn roles_permissions(m: Map<RoleView, RoleNode>, roles: Seq<RoleView>) -> Result<Set<PermissionView>, WalkError>
    decreases roles.len(),
{
    if roles.len() == 0 {
        Ok(Set::empty())
    } else {
        match roles_permissions(m, roles.drop_last()) {
            Err(e) => Err(e),
            Ok(a) => match all_permissions(m, roles.last()) {
                Err(e) => Err(e),
                Ok(b) => Ok(a.union(b)),
            },
        }
    }
}

/// A failure on a prefix of the roles is the failure of the whole.
pub proof fn lemma_roles_permissions_prefix_err(m: Map<RoleView, RoleNode>, roles: Seq<RoleView>, k: int)
    requires
        0 <= k <= roles.len(),
        roles_permissions(m, roles.subrange(0, k)) is Err,
    ensures
        roles_permissions(m, roles) == roles_permissions(m, roles.subrange(0, k)),
    decreases roles.len(),
{
    if k < roles.len() {
        assert(roles.drop_last().subrange(0, k) =~= roles.subrange(0, k));
        lemma_roles_permissions_prefix_err(m, roles.drop_last(), k);
    } else {
        assert(roles.subrange(0, k) =~= roles);
    }
}


/// Whether `res` is what a traversal whose outcome is `w` reports, with the
/// permissions `p0` before it, and `v`, `p` the roles and permissions after it.
pub open spec fn walk_result_matches(
    w: Result<(Set<RoleView>, Set<PermissionView>), WalkError>,
    res: Result<(), AuthzError>,
    p0: Set<PermissionView>,
    v: Set<RoleView>,
    p: Set<PermissionView>,
) -> bool {
    match w {
        Ok((wv, wp)) => res is Ok && v == wv && p == p0.union(wp),
        Err(e) => error_matches(e, res),
    }
}

/// Whether `res` is the error that reports the traversal failure `e`.
pub open spec fn error_matches<T>(e: WalkError, res: Result<T, AuthzError>) -> bool {
    match e {
        WalkError::Circular => res matches Err(AuthzError::CircularDependency),
        WalkError::NotFound(n) => res matches Err(AuthzError::RoleNotFound(s)) && s@ == n,
    }
}

/// The set of permission views held by a sequence.
pub open spec fn perm_set(v: Seq<Permission>) -> Set<PermissionView> {
    perm_views(v).to_set()
}

/// The views of a sequence of permissions.
pub open spec fn perm_views(v: Seq<Permission>) -> Seq<PermissionView> {
    v.map_values(|p: Permission| p@)
}

/// The permissions of a sequence are pairwise different.
pub open spec fn perms_distinct(v: Seq<Permission>) -> bool {
    forall|i: int, j: int| 0 <= i < v.len() && 0 <= j < v.len() && i != j ==> v[i]@ != v[j]@
}

/// The set of role views held by a sequence.
pub open spec fn role_set(v: Seq<Role>) -> Set<RoleView> {
    role_views(v).to_set()
}

proof fn lemma_perm_set_push(v: Seq<Permission>, p: Permission)
    ensures
        perm_set(v.push(p)) == perm_set(v).insert(p@),
{
    assert(perm_views(v.push(p)) =~= perm_views(v).push(p@));
    assert(perm_set(v.push(p)) =~= perm_set(v).insert(p@)) by {
        assert forall|x: PermissionView| perm_set(v.push(p)).contains(x) <==> perm_set(v).insert(p@).contains(x) by {
            let a = perm_views(v.push(p));
            let b = perm_views(v);
            if a.contains(x) {
                let i = choose|i: int| 0 <= i < a.len() && a[i] == x;
                if i < v.len() { assert(b[i] == x); }
            }
            if b.contains(x) {
                let i = choose|i: int| 0 <= i < b.len() && b[i] == x;
                assert(a[i] == x);
            }
            if x == p@ { assert(a[v.len() as int] == x); }
        }
    }
}

proof fn lemma_role_set_push(v: Seq<Role>, r: Role)
    ensures
        role_set(v.push(r)) == role_set(v).insert(r@),
{
    assert(role_views(v.push(r)) =~= role_views(v).push(r@));
    assert(role_set(v.push(r)) =~= role_set(v).insert(r@)) by {
        assert forall|x: RoleView| role_set(v.push(r)).contains(x) <==> role_set(v).insert(r@).contains(x) by {
            let a = role_views(v.push(r));
            let b = role_views(v);
            if a.contains(x) {
                let i = choose|i: int| 0 <= i < a.len() && a[i] == x;
                if i < v.len() { assert(b[i] == x); }
            }
            if b.contains(x) {
                let i = choose|i: int| 0 <= i < b.len() && b[i] == x;
                assert(a[i] == x);
            }
            if x == r@ { assert(a[v.len() as int] == x); }
        }
    }
}

/// Whether `v` holds a permission equal to `p`.
pub fn perms_contain(v: &Vec<Permission>, p: &Permission) -> (b: bool)
    ensures
        b == perm_set(v@).contains(p@),
{
    let mut i: usize = 0;
    while i < v.len()
        invariant
            i <= v@.len(),
            forall|j: int| 0 <= j < i ==> v@[j]@ != p@,
        decreases v.len() - i,
    {
        if v[i].same(p) {
            assert(perm_views(v@)[i as int] == p@);
            return true;
        }
        i += 1;
    }
    let ghost pv = perm_views(v@);
    assert forall|j: int| 0 <= j < pv.len() implies #[trigger] pv[j] != p@ by {
        assert(pv[j] == v@[j]@);
    }
    false
}

/// Adds `p` unless an equal permission is present.
pub fn perms_insert(v: &mut Vec<Permission>, p: Permission)
    ensures
        perm_set(final(v)@) == perm_set(old(v)@).insert(p@),
        perms_distinct(old(v)@) ==> perms_distinct(final(v)@),
{
    if !perms_contain(v, &p) {
        proof { lemma_perm_set_push(v@, p); }
        let ghost pv = p@;
        let ghost ov = v@;
        v.push(p);
        assert(perms_distinct(ov) ==> perms_distinct(v@)) by {
            if perms_distinct(ov) {
                assert forall|i: int, j: int| 0 <= i < v@.len() && 0 <= j < v@.len() && i != j implies v@[i]@ != v@[j]@ by {
                    if i < ov.len() && j < ov.len() {
                        assert(v@[i] == ov[i]);
                        assert(v@[j] == ov[j]);
                    } else if i < ov.len() {
                        assert(v@[i] == ov[i]);
                        assert(perm_views(ov)[i] == ov[i]@);
                    } else {
                        assert(v@[j] == ov[j]);
                        assert(perm_views(ov)[j] == ov[j]@);
                    }
                }
            }
        }
    } else {
        assert(perm_set(v@).insert(p@) =~= perm_set(v@));
    }
}

/// Adds every permission of `src` that is not present yet.
pub fn perms_extend(v: &mut Vec<Permission>, src: &Vec<Permission>)
    ensures
        perm_set(final(v)@) == perm_set(old(v)@).union(perm_set(src@)),
        perms_distinct(old(v)@) ==> perms_distinct(final(v)@),
{
    let mut i: usize = 0;
    while i < src.len()
        invariant
            i <= src@.len(),
            perm_set(v@) == perm_set(old(v)@).union(perm_set(src@.subrange(0, i as int))),
            perms_distinct(old(v)@) ==> perms_distinct(v@),
        decreases src.len() - i,
    {
        let p = src[i].copy();
        proof {
            assert(src@.subrange(0, i + 1) =~= src@.subrange(0, i as int).push(src@[i as int]));
            lemma_perm_set_push(src@.subrange(0, i as int), src@[i as int]);
        }
        perms_insert(v, p);
        i += 1;
        assert(perm_set(v@) =~= perm_set(old(v)@).union(perm_set(src@.subrange(0, i as int))));
    }
    assert(src@.subrange(0, src@.len() as int) =~= src@);
}

/// Whether `v` holds a role equal to `r`.
pub fn role_set_contains(v: &Vec<Role>, r: &Role) -> (b: bool)
    ensures
        b == role_set(v@).contains(r@),
{
    let mut i: usize = 0;
    while i < v.len()
        invariant
            i <= v@.len(),
            forall|j: int| 0 <= j < i ==> v@[j]@ != r@,
        decreases v.len() - i,
    {
        if v[i].same(r) {
            assert(role_views(v@)[i as int] == r@);
            return true;
        }
        i += 1;
    }
    let ghost rv = role_views(v@);
    assert forall|j: int| 0 <= j < rv.len() implies #[trigger] rv[j] != r@ by {
        assert(rv[j] == v@[j]@);
    }
    false
}

/// Role definition: a role, its direct permissions and the roles it inherits from.
#[derive(Debug)]
pub struct RoleDefinition {
    pub role: Role,
    pub permissions: Vec<Permission>,
    pub inherits_from: Vec<Role>,
    pub description: Option<String>,
}

/// What the hierarchy records of a definition.
pub open spec fn node_of(d: RoleDefinition) -> RoleNode {
    RoleNode {
        perms: perm_set(d.permissions@),
        parents: role_views(d.inherits_from@),
        description: match d.description {
            Some(text) => Some(text@),
            None => None,
        },
    }
}

impl RoleDefinition {
    /// A definition of `role` without permissions, parents or description.
    pub fn new(role: Role) -> (d: RoleDefinition)
        ensures
            d.role == role,
            d.permissions@.len() == 0,
            d.inherits_from@.len() == 0,
            d.description is None,
    {
        RoleDefinition { role, permissions: Vec::new(), inherits_from: Vec::new(), description: None }
    }

    /// Adds a permission (a permission already present is not repeated).
    pub fn add_permission(self, permission: Permission) -> (d: RoleDefinition)
        ensures
            perm_set(d.permissions@) == perm_set(self.permissions@).insert(permission@),
            perms_distinct(self.permissions@) ==> perms_distinct(d.permissions@),
            d.role == self.role,
            d.inherits_from == self.inherits_from,
            d.description == self.description,
    {
        let mut d = self;
        perms_insert(&mut d.permissions, permission);
        d
    }

    /// Adds several permissions (permissions already present are not repeated).
    pub fn add_permissions(self, permissions: Vec<Permission>) -> (d: RoleDefinition)
        ensures
            perm_set(d.permissions@) == perm_set(self.permissions@).union(perm_set(permissions@)),
            perms_distinct(self.permissions@) ==> perms_distinct(d.permissions@),
            d.role == self.role,
            d.inherits_from == self.inherits_from,
            d.description == self.description,
    {
        let mut d = self;
        perms_extend(&mut d.permissions, &permissions);
        d
    }

    /// Adds a parent role to inherit from.
    pub fn inherit_from(self, role: Role) -> (d: RoleDefinition)
        ensures
            d.inherits_from@ == self.inherits_from@.push(role),
            d.role == self.role,
            d.permissions == self.permissions,
            d.description == self.description,
    {
        let mut d = self;
        d.inherits_from.push(role);
        d
    }

    /// Sets the description.
    pub fn with_description(self, description: String) -> (d: RoleDefinition)
        ensures
            d == (RoleDefinition { description: Some(description), ..self }),
    {
        RoleDefinition { description: Some(description), ..self }
    }
}

/// The hierarchy described by a sequence of definitions (a later definition
/// of a role replaces an earlier one).
pub open spec fn defs_map(defs: Seq<RoleDefinition>) -> Map<RoleView, RoleNode>
    decreases defs.len(),
{
    if defs.len() == 0 {
        Map::empty()
    } else {
        defs_map(defs.drop_last()).insert(defs.last().role@, node_of(defs.last()))
    }
}

/// The roles of the definitions are pairwise different.
pub open spec fn roles_distinct(defs: Seq<RoleDefinition>) -> bool {
    forall|i: int, j: int| 0 <= i < defs.len() && 0 <= j < defs.len() && i != j ==> defs[i].role@ != defs[j].role@
}

proof fn lemma_defs_map_finite(defs: Seq<RoleDefinition>)
    ensures
        defs_map(defs).dom().finite(),
    decreases defs.len(),
{
    if defs.len() > 0 {
        lemma_defs_map_finite(defs.drop_last());
    }
}

proof fn lemma_defs_map(defs: Seq<RoleDefinition>)
    requires
        roles_distinct(defs),
    ensures
        defs_map(defs).dom().finite(),
        forall|r: RoleView| defs_map(defs).contains_key(r) <==> exists|i: int| 0 <= i < defs.len() && defs[i].role@ == r,
        forall|i: int| 0 <= i < defs.len() ==> #[trigger] defs_map(defs)[defs[i].role@] == node_of(defs[i]),
    decreases defs.len(),
{
    if defs.len() > 0 {
        let d = defs.drop_last();
        assert(roles_distinct(d)) by {
            assert forall|i: int, j: int| 0 <= i < d.len() && 0 <= j < d.len() && i != j implies d[i].role@ != d[j].role@ by {
                assert(d[i] == defs[i]);
                assert(d[j] == defs[j]);
            }
        }
        lemma_defs_map(d);
        assert forall|r: RoleView| defs_map(defs).contains_key(r) <==> exists|i: int| 0 <= i < defs.len() && defs[i].role@ == r by {
            if defs_map(defs).contains_key(r) {
                if r == defs.last().role@ {
                    assert(defs[defs.len() - 1].role@ == r);
                } else {
                    let i = choose|i: int| 0 <= i < d.len() && d[i].role@ == r;
                    assert(defs[i] == d[i]);
                }
            }
            if exists|i: int| 0 <= i < defs.len() && defs[i].role@ == r {
                let i = choose|i: int| 0 <= i < defs.len() && defs[i].role@ == r;
                if i < defs.len() - 1 {
                    assert(d[i] == defs[i]);
                }
            }
        }
        assert forall|i: int| 0 <= i < defs.len() implies #[trigger] defs_map(defs)[defs[i].role@] == node_of(defs[i]) by {
            if i < defs.len() - 1 {
                assert(d[i] == defs[i]);
                assert(defs[i].role@ != defs[defs.len() - 1].role@);
            }
        }
    }
}

proof fn lemma_defs_map_push(defs: Seq<RoleDefinition>, d: RoleDefinition)
    requires
        roles_distinct(defs),
        !defs_map(defs).contains_key(d.role@),
    ensures
        roles_distinct(defs.push(d)),
        defs_map(defs.push(d)) == defs_map(defs).insert(d.role@, node_of(d)),
{
    lemma_defs_map(defs);
    let u = defs.push(d);
    assert(u.drop_last() =~= defs);
    assert forall|i: int, j: int| 0 <= i < u.len() && 0 <= j < u.len() && i != j implies u[i].role@ != u[j].role@ by {
        if i < defs.len() && j < defs.len() {
            assert(u[i] == defs[i] && u[j] == defs[j]);
        } else if i < defs.len() {
            assert(u[i] == defs[i]);
            assert(defs_map(defs).contains_key(defs[i].role@));
        } else {
            assert(u[j] == defs[j]);
            assert(defs_map(defs).contains_key(defs[j].role@));
        }
    }
}

proof fn lemma_defs_map_update(defs: Seq<RoleDefinition>, i: int, d: RoleDefinition)
    requires
        roles_distinct(defs),
        0 <= i < defs.len(),
        defs[i].role@ == d.role@,
    ensures
        roles_distinct(defs.update(i, d)),
        defs_map(defs.update(i, d)) == defs_map(defs).insert(d.role@, node_of(d)),
{
    let u = defs.update(i, d);
    assert forall|a: int, b: int| 0 <= a < u.len() && 0 <= b < u.len() && a != b implies u[a].role@ != u[b].role@ by {
        assert(u[a].role@ == defs[a].role@);
        assert(u[b].role@ == defs[b].role@);
    }
    lemma_defs_map(defs);
    lemma_defs_map(u);
    let lhs = defs_map(u);
    let rhs = defs_map(defs).insert(d.role@, node_of(d));
    assert forall|r: RoleView| lhs.contains_key(r) <==> rhs.contains_key(r) by {
        if lhs.contains_key(r) {
            let k = choose|k: int| 0 <= k < u.len() && u[k].role@ == r;
            if k != i {
                assert(defs[k] == u[k]);
            }
        }
        if defs_map(defs).contains_key(r) {
            let k = choose|k: int| 0 <= k < defs.len() && defs[k].role@ == r;
            assert(u[k].role@ == r);
        }
        if r == d.role@ {
            assert(u[i].role@ == r);
        }
    }
    assert forall|r: RoleView| lhs.contains_key(r) implies lhs[r] == rhs[r] by {
        let k = choose|k: int| 0 <= k < u.len() && u[k].role@ == r;
        assert(lhs[u[k].role@] == node_of(u[k]));
        if k != i {
            assert(defs[k] == u[k]);
            assert(defs_map(defs)[defs[k].role@] == node_of(defs[k]));
        }
    }
    assert(lhs =~= rhs);
}

proof fn lemma_no_definitions_acyclic()
    ensures
        acyclic(defs_map(Seq::<RoleDefinition>::empty())),
{
    assert(ranked(defs_map(Seq::<RoleDefinition>::empty()), |x: RoleView| 0nat));
}

/// Role hierarchy: role definitions by role, with no cycle of inheritance.
#[derive(Debug)]
pub struct RoleHierarchy {
    roles: Vec<RoleDefinition>,
}

impl View for RoleHierarchy {
    type V = Map<RoleView, RoleNode>;

    closed spec fn view(&self) -> Map<RoleView, RoleNode> {
        defs_map(self.roles@)
    }
}

impl RoleHierarchy {
    #[verifier::type_invariant]
    spec fn well_formed(&self) -> bool {
        roles_distinct(self.roles@) && acyclic(defs_map(self.roles@))
    }

    /// Every hierarchy knows finitely many roles.
    pub proof fn lemma_finite(&self)
        ensures
            self@.dom().finite(),
    {
        lemma_defs_map_finite(self.roles@);
    }

    /// An empty hierarchy.
    pub fn new() -> (h: RoleHierarchy)
        ensures
            h@ == Map::<RoleView, RoleNode>::empty(),
            acyclic(h@),
    {
        let roles: Vec<RoleDefinition> = Vec::new();
        proof {
            lemma_no_definitions_acyclic();
            assert(roles@ =~= Seq::<RoleDefinition>::empty());
            assert(defs_map(roles@) =~= Map::<RoleView, RoleNode>::empty());
        }
        RoleHierarchy { roles }
    }

    /// Index of the definition of `role`.
    fn find(&self, role: &Role) -> (r: Option<usize>)
        ensures
            match r {
                Some(i) => i < self.roles@.len() && self.roles@[i as int].role@ == role@
                    && self@.contains_key(role@) && self@[role@] == node_of(self.roles@[i as int]),
                None => !self@.contains_key(role@),
            },
    {
        proof {
            use_type_invariant(self);
            lemma_defs_map(self.roles@);
        }
        let mut i: usize = 0;
        while i < self.roles.len()
            invariant
                i <= self.roles@.len(),
                forall|j: int| 0 <= j < i ==> self.roles@[j].role@ != role@,
            decreases self.roles.len() - i,
        {
            if self.roles[i].role.same(role) {
                proof {
                    use_type_invariant(self);
                    lemma_defs_map(self.roles@);
                }
                return Some(i);
            }
            i += 1;
        }
        None
    }

    /// Depth-first traversal, in order, of `roles` and their ancestors, with
    /// the meaning of `walk`: `path` is the chain of inheritance being followed
    /// (given back unchanged), the permissions of the defined roles traversed
    /// are added to `perms` and the roles traversed to `done`.
    fn collect_permissions(
        &self,
        roles: &Vec<Role>,
        perms: &mut Vec<Permission>,
        path: &mut Vec<Role>,
        done: &mut Vec<Role>,
        strict: bool,
    ) -> (res: Result<(), AuthzError>)
        requires
            perms_distinct(old(perms)@),
        ensures
            perms_distinct(final(perms)@),
            final(path)@ == old(path)@,
            walk_result_matches(
                walk(self@, role_views(roles@), role_set(old(path)@), role_set(old(done)@), strict),
                res,
                perm_set(old(perms)@),
                role_set(final(done)@),
                perm_set(final(perms)@),
            ),
        decreases self@.dom().difference(role_set(old(path)@)).len(),
    {
        proof { self.lemma_finite(); }
        let ghost m = self@;
        let ghost pth = role_set(path@);
        let ghost path0 = path@;
        let ghost d0 = role_set(done@);
        let ghost p0 = perm_set(perms@);
        let ghost todo = role_views(roles@);
        let ghost mut pj: Set<PermissionView> = Set::empty();
        assert(todo.subrange(0, 0) =~= Seq::<RoleView>::empty());
        assert(p0.union(Set::empty()) =~= p0);
        let mut j: usize = 0;
        while j < roles.len()
            invariant
                m == self@,
                m.dom().finite(),
                todo == role_views(roles@),
                j <= roles@.len(),
                path@ == path0,
                path0 == old(path)@,
                pth == role_set(path0),
                d0 == role_set(old(done)@),
                p0 == perm_set(old(perms)@),
                walk(m, todo.subrange(0, j as int), pth, d0, strict)
                    == Ok::<(Set<RoleView>, Set<PermissionView>), WalkError>((role_set(done@), pj)),
                perm_set(perms@) == p0.union(pj),
                perms_distinct(perms@),
            decreases roles@.len() - j,
        {
            let role = &roles[j];
            let ghost dj = role_set(done@);
            proof {
                assert(todo[j as int] == role@);
                assert(todo.subrange(0, j + 1) =~= todo.subrange(0, j as int) + seq![role@]);
                lemma_walk_append(m, todo.subrange(0, j as int), seq![role@], pth, d0, strict);
                assert(seq![role@][0] == role@);
                assert(seq![role@].drop_first() =~= Seq::<RoleView>::empty());
                assert(todo == todo.subrange(0, j + 1) + todo.subrange(j + 1, todo.len() as int));
                lemma_walk_append(m, todo.subrange(0, j + 1), todo.subrange(j + 1, todo.len() as int), pth, d0, strict);
            }
            if role_set_contains(path, role) {
                return Err(AuthzError::CircularDependency);
            }
            if role_set_contains(done, role) {
                assert(walk(m, Seq::<RoleView>::empty(), pth, dj, strict)
                    == Ok::<(Set<RoleView>, Set<PermissionView>), WalkError>((dj, Set::empty())));
                proof {
                    assert(pj.union(Set::empty()) =~= pj);
                }
            } else {
                match self.find(role) {
                    None => {
                        if strict {
                            return Err(AuthzError::RoleNotFound(role.name.clone()));
                        }
                        let seen = role.copy();
                        proof { lemma_role_set_push(done@, seen); }
                        done.push(seen);
                        assert(walk(m, Seq::<RoleView>::empty(), pth, dj.insert(role@), strict)
                            == Ok::<(Set<RoleView>, Set<PermissionView>), WalkError>((dj.insert(role@), Set::empty())));
                        proof {
                            assert(pj.union(Set::empty()) =~= pj);
                        }
                    },
                    Some(i) => {
                        let def = &self.roles[i];
                        let ghost node = m[role@];
                        proof {
                            m.dom().lemma_set_insert_diff_decreases(pth, role@);
                        }
                        perms_extend(perms, &def.permissions);
                        let ghost after_own = perm_set(perms@);
                        let entered = role.copy();
                        proof { lemma_role_set_push(path@, entered); }
                        path.push(entered);
                        let r = self.collect_permissions(&def.inherits_from, perms, path, done, strict);
                        let _ = path.pop();
                        assert(path@ =~= path0);
                        match r {
                            Err(e) => {
                                return Err(e);
                            },
                            Ok(()) => {
                                let ghost d1 = role_set(done@);
                                let seen = role.copy();
                                proof { lemma_role_set_push(done@, seen); }
                                done.push(seen);
                                assert(walk(m, Seq::<RoleView>::empty(), pth, d1.insert(role@), strict)
                                    == Ok::<(Set<RoleView>, Set<PermissionView>), WalkError>((d1.insert(role@), Set::empty())));
                                proof {
                                    let pw = walk(m, node.parents, pth.insert(role@), dj, strict)->Ok_0.1;
                                    let step = node.perms.union(pw).union(Set::<PermissionView>::empty());
                                    assert(perm_set(perms@) =~= p0.union(pj.union(step)));
                                    pj = pj.union(step);
                                }
                            },
                        }
                    },
                }
            }
            j += 1;
        }
        proof {
            assert(todo.subrange(0, j as int) =~= todo);
        }
        Ok(())
    }

    /// Adds (or replaces) the definition of a role, unless the role would then
    /// inherit from itself (the traversal from its parents reaches it): then
    /// the hierarchy is unchanged and the result is `CircularDependency`. A
    /// role inherited along two routes is no cycle. The hierarchy stays free
    /// of cycles.
    pub fn add_role(&mut self, definition: RoleDefinition) -> (r: Result<(), AuthzError>)
        ensures
            r is Ok <==> admits_definition(old(self)@, definition),
            r is Ok <==> !exists|i: int| 0 <= i < definition.inherits_from@.len()
                && reaches(old(self)@, #[trigger] role_views(definition.inherits_from@)[i], definition.role@),
            r is Ok ==> final(self)@ == old(self)@.insert(definition.role@, node_of(definition)),
            r is Err ==> (r matches Err(AuthzError::CircularDependency) && final(self)@ == old(self)@),
            acyclic(final(self)@),
    {
        proof {
            use_type_invariant(&*self);
            self.lemma_finite();
            lemma_admits_iff_unreachable(self@, definition);
        }
        let checked = self.check_circular_dependency(&definition);
        if checked.is_err() {
            return Err(AuthzError::CircularDependency);
        }
        proof {
            lemma_admitted_definition_keeps_acyclic(self@, definition);
            lemma_no_definitions_acyclic();
        }
        match self.find(&definition.role) {
            Some(i) => {
                proof { lemma_defs_map_update(self.roles@, i as int, definition); }
                let mut roles = Vec::new();
                std::mem::swap(&mut roles, &mut self.roles);
                roles.set(i, definition);
                self.roles = roles;
            },
            None => {
                proof { lemma_defs_map_push(self.roles@, definition); }
                let mut roles = Vec::new();
                std::mem::swap(&mut roles, &mut self.roles);
                roles.push(definition);
                self.roles = roles;
            },
        }
        Ok(())
    }

    /// Checks that `definition` can join the hierarchy (see `admits_definition`).
    fn check_circular_dependency(&self, definition: &RoleDefinition) -> (r: Result<(), AuthzError>)
        ensures
            r is Ok <==> admits_definition(self@, *definition),
            r is Err ==> r matches Err(AuthzError::CircularDependency),
    {
        let mut path: Vec<Role> = Vec::new();
        let mut done: Vec<Role> = Vec::new();
        let first = definition.role.copy();
        proof {
            lemma_role_set_push(path@, first);
            assert(role_set(path@) =~= Set::<RoleView>::empty());
            assert(role_set(done@) =~= Set::<RoleView>::empty());
            assert(Set::<RoleView>::empty().insert(first@) =~= set![definition.role@]);
            self.lemma_finite();
            lemma_walk_lenient(self@, role_views(definition.inherits_from@), set![definition.role@], Set::empty());
        }
        path.push(first);
        let mut scratch: Vec<Permission> = Vec::new();
        let r = self.collect_permissions(&definition.inherits_from, &mut scratch, &mut path, &mut done, false);
        match r {
            Ok(()) => Ok(()),
            Err(_) => Err(AuthzError::CircularDependency),
        }
    }

    /// All permissions of `role`, its own and inherited (each once); a role
    /// without definition on the way gives `RoleNotFound`. The hierarchy
    /// holding no cycle, `CircularDependency` never comes.
    pub fn get_all_permissions(&self, role: &Role) -> (r: Result<Vec<Permission>, AuthzError>)
        ensures
            match all_permissions(self@, role@) {
                Ok(p) => r matches Ok(v) && perm_set(v@) == p && perms_distinct(v@),
                Err(e) => error_matches(e, r),
            },
            !(r matches Err(AuthzError::CircularDependency)),
    {
        proof {
            use_type_invariant(self);
            self.lemma_finite();
            lemma_acyclic_permissions_not_circular(self@, role@);
        }
        let mut permissions: Vec<Permission> = Vec::new();
        let mut path: Vec<Role> = Vec::new();
        let mut done: Vec<Role> = Vec::new();
        let mut start: Vec<Role> = Vec::new();
        start.push(role.copy());
        proof {
            assert(role_views(start@) =~= seq![role@]);
            assert(role_set(path@) =~= Set::<RoleView>::empty());
            assert(role_set(done@) =~= Set::<RoleView>::empty());
            assert(perm_set(permissions@) =~= Set::<PermissionView>::empty());
        }
        let res = self.collect_permissions(&start, &mut permissions, &mut path, &mut done, true);
        match res {
            Ok(()) => {
                proof {
                    let p = walk(self@, seq![role@], Set::empty(), Set::empty(), true)->Ok_0.1;
                    assert(Set::<PermissionView>::empty().union(p) =~= p);
                }
                Ok(permissions)
            },
            Err(e) => Err(e),
        }
    }

    /// The definition of `role`, if any.
    pub fn get_role(&self, role: &Role) -> (r: Option<&RoleDefinition>)
        ensures
            match r {
                Some(d) => d.role@ == role@ && self@.contains_key(role@) && self@[role@] == node_of(*d),
                None => !self@.contains_key(role@),
            },
    {
        match self.find(role) {
            Some(i) => Some(&self.roles[i]),
            None => None,
        }
    }
}

impl Default for RoleHierarchy {
    fn default() -> (h: RoleHierarchy)
        ensures
            h@ == Map::<RoleView, RoleNode>::empty(),
    {
        RoleHierarchy::new()
    }
}

/// The permissions of the standard `admin` role.
pub open spec fn admin_permission_views() -> Seq<PermissionView> {
    seq![
        (ResourceKind::Order, ActionKind::Read),
        (ResourceKind::Order, ActionKind::Create),
        (ResourceKind::Order, ActionKind::Update),
        (ResourceKind::Order, ActionKind::Delete),
        (ResourceKind::Account, ActionKind::Read),
        (ResourceKind::Account, ActionKind::Create),
        (ResourceKind::Account, ActionKind::Update),
        (ResourceKind::Account, ActionKind::Delete),
        (ResourceKind::User, ActionKind::Read),
        (ResourceKind::User, ActionKind::Create),
        (ResourceKind::User, ActionKind::Update),
        (ResourceKind::User, ActionKind::Delete),
        (ResourceKind::Config, ActionKind::Read),
        (ResourceKind::Config, ActionKind::Update),
        (ResourceKind::AuditLog, ActionKind::Read),
        (ResourceKind::AuditLog, ActionKind::Export),
    ]
}

/// The permissions of the standard `compliance` role.
pub open spec fn compliance_permission_views() -> Seq<PermissionView> {
    seq![
        (ResourceKind::Order, ActionKind::Read),
        (ResourceKind::Order, ActionKind::Approve),
        (ResourceKind::Order, ActionKind::Reject),
        (ResourceKind::Position, ActionKind::Read),
        (ResourceKind::Account, ActionKind::Read),
        (ResourceKind::AuditLog, ActionKind::Read),
        (ResourceKind::AuditLog, ActionKind::Export),
    ]
}

/// The permissions of the standard `retail_trader` role.
pub open spec fn retail_trader_permission_views() -> Seq<PermissionView> {
    seq![
        (ResourceKind::Order, ActionKind::Read),
        (ResourceKind::Order, ActionKind::Create),
        (ResourceKind::Order, ActionKind::Update),
        (ResourceKind::Order, ActionKind::Cancel),
        (ResourceKind::Position, ActionKind::Read),
        (ResourceKind::MarketData, ActionKind::Read),
        (ResourceKind::Account, ActionKind::Read),
    ]
}

/// The permissions of the standard `institutional_trader` role.
pub open spec fn institutional_trader_permission_views() -> Seq<PermissionView> {
    seq![
        (ResourceKind::Order, ActionKind::Read),
        (ResourceKind::Order, ActionKind::Create),
        (ResourceKind::Order, ActionKind::Update),
        (ResourceKind::Order, ActionKind::Cancel),
        (ResourceKind::Position, ActionKind::Read),
        (ResourceKind::MarketData, ActionKind::Read),
        (ResourceKind::MarketData, ActionKind::Export),
        (ResourceKind::Account, ActionKind::Read),
        (ResourceKind::Account, ActionKind::Update),
    ]
}

/// The hierarchy of the default policy: four standard roles, none inheriting.
pub open spec fn default_role_map() -> Map<RoleView, RoleNode> {
    Map::empty()
        .insert(("admin"@, UserDomain::Admin), RoleNode {
            perms: admin_permission_views().to_set(),
            parents: Seq::empty(),
            description: Some("Administrator with full access"@),
        })
        .insert(("compliance"@, UserDomain::Compliance), RoleNode {
            perms: compliance_permission_views().to_set(),
            parents: Seq::empty(),
            description: Some("Compliance team with audit permissions"@),
        })
        .insert(("retail_trader"@, UserDomain::Retail), RoleNode {
            perms: retail_trader_permission_views().to_set(),
            parents: Seq::empty(),
            description: Some("Retail trader with order management permissions"@),
        })
        .insert(("institutional_trader"@, UserDomain::Institutional), RoleNode {
            perms: institutional_trader_permission_views().to_set(),
            parents: Seq::empty(),
            description: Some("Institutional trader with enhanced permissions"@),
        })
}

fn admin_permissions() -> (v: Vec<Permission>)
    ensures
        perm_views(v@) == admin_permission_views(),
{
    let mut v: Vec<Permission> = Vec::new();
    v.push(Permission::new(ResourceType::Order, Action::Read));
    v.push(Permission::new(ResourceType::Order, Action::Create));
    v.push(Permission::new(ResourceType::Order, Action::Update));
    v.push(Permission::new(ResourceType::Order, Action::Delete));
    v.push(Permission::new(ResourceType::Account, Action::Read));
    v.push(Permission::new(ResourceType::Account, Action::Create));
    v.push(Permission::new(ResourceType::Account, Action::Update));
    v.push(Permission::new(ResourceType::Account, Action::Delete));
    v.push(Permission::new(ResourceType::User, Action::Read));
    v.push(Permission::new(ResourceType::User, Action::Create));
    v.push(Permission::new(ResourceType::User, Action::Update));
    v.push(Permission::new(ResourceType::User, Action::Delete));
    v.push(Permission::new(ResourceType::Config, Action::Read));
    v.push(Permission::new(ResourceType::Config, Action::Update));
    v.push(Permission::new(ResourceType::AuditLog, Action::Read));
    v.push(Permission::new(ResourceType::AuditLog, Action::Export));
    assert(perm_views(v@) =~= admin_permission_views());
    v
}

fn compliance_permissions() -> (v: Vec<Permission>)
    ensures
        perm_views(v@) == compliance_permission_views(),
{
    let mut v: Vec<Permission> = Vec::new();
    v.push(Permission::new(ResourceType::Order, Action::Read));
    v.push(Permission::new(ResourceType::Order, Action::Approve));
    v.push(Permission::new(ResourceType::Order, Action::Reject));
    v.push(Permission::new(ResourceType::Position, Action::Read));
    v.push(Permission::new(ResourceType::Account, Action::Read));
    v.push(Permission::new(ResourceType::AuditLog, Action::Read));
    v.push(Permission::new(ResourceType::AuditLog, Action::Export));
    assert(perm_views(v@) =~= compliance_permission_views());
    v
}

fn retail_trader_permissions() -> (v: Vec<Permission>)
    ensures
        perm_views(v@) == retail_trader_permission_views(),
{
    let mut v: Vec<Permission> = Vec::new();
    v.push(Permission::new(ResourceType::Order, Action::Read));
    v.push(Permission::new(ResourceType::Order, Action::Create));
    v.push(Permission::new(ResourceType::Order, Action::Update));
    v.push(Permission::new(ResourceType::Order, Action::Cancel));
    v.push(Permission::new(ResourceType::Position, Action::Read));
    v.push(Permission::new(ResourceType::MarketData, Action::Read));
    v.push(Permission::new(ResourceType::Account, Action::Read));
    assert(perm_views(v@) =~= retail_trader_permission_views());
    v
}

fn institutional_trader_permissions() -> (v: Vec<Permission>)
    ensures
        perm_views(v@) == institutional_trader_permission_views(),
{
    let mut v: Vec<Permission> = Vec::new();
    v.push(Permission::new(ResourceType::Order, Action::Read));
    v.push(Permission::new(ResourceType::Order, Action::Create));
    v.push(Permission::new(ResourceType::Order, Action::Update));
    v.push(Permission::new(ResourceType::Order, Action::Cancel));
    v.push(Permission::new(ResourceType::Position, Action::Read));
    v.push(Permission::new(ResourceType::MarketData, Action::Read));
    v.push(Permission::new(ResourceType::MarketData, Action::Export));
    v.push(Permission::new(ResourceType::Account, Action::Read));
    v.push(Permission::new(ResourceType::Account, Action::Update));
    assert(perm_views(v@) =~= institutional_trader_permission_views());
    v
}

/// A definition of `role` with `permissions` and a description, inheriting from none.
fn standard_role(role: Role, permissions: Vec<Permission>, description: &str) -> (d: RoleDefinition)
    ensures
        d.role == role,
        node_of(d) == (RoleNode { perms: perm_set(permissions@), parents: Seq::empty(), description: Some(description@) }),
{
    let d0 = RoleDefinition::new(role);
    assert(d0.permissions@ =~= Seq::<Permission>::empty());
    assert(perm_set(d0.permissions@) =~= Set::<PermissionView>::empty());
    let d = d0.add_permissions(permissions).with_description(String::from_str(description));
    assert(Set::<PermissionView>::empty().union(perm_set(permissions@)) =~= perm_set(permissions@));
    assert(role_views(d.inherits_from@) =~= Seq::<RoleView>::empty());
    d
}

/// RBAC policy: a role hierarchy that answers permission questions.
pub struct RbacPolicy {
    hierarchy: RoleHierarchy,
}

impl View for RbacPolicy {
    type V = Map<RoleView, RoleNode>;

    closed spec fn view(&self) -> Map<RoleView, RoleNode> {
        self.hierarchy@
    }
}

impl RbacPolicy {
    /// A policy over `hierarchy`.
    pub fn new(hierarchy: RoleHierarchy) -> (p: RbacPolicy)
        ensures
            p@ == hierarchy@,
    {
        RbacPolicy { hierarchy }
    }

    /// The policy with the four standard roles.
    pub fn default_policy() -> (r: Result<RbacPolicy, AuthzError>)
        ensures
            r matches Ok(p) && p@ == default_role_map(),
    {
        let admin = standard_role(Role::admin(), admin_permissions(), "Administrator with full access");
        let compliance = standard_role(Role::compliance(), compliance_permissions(), "Compliance team with audit permissions");
        let retail_trader = standard_role(Role::retail_trader(), retail_trader_permissions(), "Retail trader with order management permissions");
        let institutional_trader = standard_role(Role::institutional_trader(), institutional_trader_permissions(), "Institutional trader with enhanced permissions");
        let mut hierarchy = RoleHierarchy::new();
        let added = hierarchy.add_role(admin);
        if added.is_err() { return Err(AuthzError::CircularDependency); }
        let added = hierarchy.add_role(compliance);
        if added.is_err() { return Err(AuthzError::CircularDependency); }
        let added = hierarchy.add_role(retail_trader);
        if added.is_err() { return Err(AuthzError::CircularDependency); }
        let added = hierarchy.add_role(institutional_trader);
        if added.is_err() { return Err(AuthzError::CircularDependency); }
        Ok(RbacPolicy::new(hierarchy))
    }

    /// Whether one of `roles` holds `permission`, directly or inherited (a role
    /// whose permissions cannot be gathered counts as holding none).
    pub fn has_permission(&self, roles: &[Role], permission: &Permission) -> (b: bool)
        ensures
            b == exists|i: int| 0 <= i < roles@.len()
                && (#[trigger] all_permissions(self@, roles@[i]@) matches Ok(ps) && ps.contains(permission@)),
    {
        let mut i: usize = 0;
        while i < roles.len()
            invariant
                i <= roles@.len(),
                forall|k: int| 0 <= k < i ==> !(#[trigger] all_permissions(self@, roles@[k]@) matches Ok(ps) && ps.contains(permission@)),
            decreases roles@.len() - i,
        {
            let got = self.hierarchy.get_all_permissions(&roles[i]);
            match got {
                Ok(ps) => {
                    if perms_contain(&ps, permission) {
                        assert(all_permissions(self@, roles@[i as int]@) matches Ok(ps) && ps.contains(permission@));
                        return true;
                    }
                },
                Err(_) => {},
            }
            i += 1;
        }
        false
    }

    /// The union of the permissions of `roles`, or the first failure met.
    pub fn get_permissions(&self, roles: &[Role]) -> (r: Result<Vec<Permission>, AuthzError>)
        ensures
            match roles_permissions(self@, role_views(roles@)) {
                Ok(p) => r matches Ok(v) && perm_set(v@) == p && perms_distinct(v@),
                Err(e) => error_matches(e, r),
            },
    {
        let mut all: Vec<Permission> = Vec::new();
        let mut i: usize = 0;
        assert(role_views(roles@.subrange(0, 0)) =~= Seq::<RoleView>::empty());
        assert(perm_set(all@) =~= Set::<PermissionView>::empty());
        while i < roles.len()
            invariant
                i <= roles@.len(),
                roles_permissions(self@, role_views(roles@.subrange(0, i as int))) == Ok::<Set<PermissionView>, WalkError>(perm_set(all@)),
                perms_distinct(all@),
            decreases roles@.len() - i,
        {
            let ghost before = perm_set(all@);
            proof {
                let pre = role_views(roles@.subrange(0, i as int));
                let cur = role_views(roles@.subrange(0, i + 1));
                assert(cur.drop_last() =~= pre);
                assert(cur.last() == roles@[i as int]@);
            }
            let got = self.hierarchy.get_all_permissions(&roles[i]);
            match got {
                Ok(ps) => {
                    perms_extend(&mut all, &ps);
                },
                Err(e) => {
                    proof {
                        let rv = role_views(roles@);
                        assert(rv.subrange(0, i + 1) =~= role_views(roles@.subrange(0, i + 1)));
                        assert(role_views(roles@) =~= rv);
                        lemma_roles_permissions_prefix_err(self@, rv, i + 1);
                    }
                    return Err(e);
                },
            }
            i += 1;
        }
        assert(roles@.subrange(0, roles@.len() as int) =~= roles@);
        Ok(all)
    }
}

/// `s` without the occurrences of `r`, in order.
pub open spec fn without_role(s: Seq<RoleView>, r: RoleView) -> Seq<RoleView>
    decreases s.len(),
{
    if s.len() == 0 {
        s
    } else {
        let rest = without_role(s.drop_last(), r);
        if s.last() == r {
            rest
        } else {
            rest.push(s.last())
        }
    }
}

/// The roles assigned to `user` in the assignment map `m`.
pub open spec fn assigned(m: Map<Seq<char>, Seq<RoleView>>, user: Seq<char>) -> Seq<RoleView> {
    if m.contains_key(user) {
        m[user]
    } else {
        Seq::empty()
    }
}

/// The assignments after `role` is given to `user`.
pub open spec fn assign_spec(m: Map<Seq<char>, Seq<RoleView>>, user: Seq<char>, role: RoleView) -> Map<Seq<char>, Seq<RoleView>> {
    m.insert(user, assigned(m, user).push(role))
}

/// The assignments after `role` is taken from `user`.
pub open spec fn revoke_spec(m: Map<Seq<char>, Seq<RoleView>>, user: Seq<char>, role: RoleView) -> Map<Seq<char>, Seq<RoleView>> {
    if m.contains_key(user) {
        m.insert(user, without_role(m[user], role))
    } else {
        m
    }
}

/// Removing a role leaves no occurrence of it and keeps every other role.
pub proof fn lemma_without_role(s: Seq<RoleView>, r: RoleView)
    ensures
        !without_role(s, r).contains(r),
        forall|x: RoleView| x != r ==> (without_role(s, r).contains(x) <==> s.contains(x)),
    decreases s.len(),
{
    if s.len() > 0 {
        lemma_without_role(s.drop_last(), r);
        let rest = without_role(s.drop_last(), r);
        assert forall|x: RoleView| x != r implies (without_role(s, r).contains(x) <==> s.contains(x)) by {
            if s.contains(x) {
                let i = choose|i: int| 0 <= i < s.len() && s[i] == x;
                if i < s.len() - 1 {
                    assert(s.drop_last()[i] == x);
                }
            }
            if s.drop_last().contains(x) {
                let i = choose|i: int| 0 <= i < s.drop_last().len() && s.drop_last()[i] == x;
                assert(s[i] == x);
            }
            if without_role(s, r).contains(x) && s.last() != r {
                let i = choose|i: int| 0 <= i < rest.push(s.last()).len() && rest.push(s.last())[i] == x;
                if i < rest.len() {
                    assert(rest[i] == x);
                }
            }
            if rest.contains(x) && s.last() != r {
                let i = choose|i: int| 0 <= i < rest.len() && rest[i] == x;
                assert(rest.push(s.last())[i] == x);
            }
            if s.last() == x {
                assert(rest.push(s.last())[rest.len() as int] == x);
            }
        }
        if s.last() != r {
            assert forall|i: int| 0 <= i < rest.push(s.last()).len() implies rest.push(s.last())[i] != r by {
                if i < rest.len() {
                    assert(rest.contains(rest[i]));
                }
            }
        }
    }
}

/// After `role` is assigned to `user`, `user` has it, and no one else's
/// roles change.
pub proof fn lemma_assign_grants(m: Map<Seq<char>, Seq<RoleView>>, user: Seq<char>, role: RoleView, other: Seq<char>)
    ensures
        assigned(assign_spec(m, user, role), user).contains(role),
        other != user ==> assigned(assign_spec(m, user, role), other) == assigned(m, other),
{
    let s = assigned(m, user).push(role);
    assert(s[s.len() - 1] == role);
}

/// After `role` is revoked from `user`, `user` no longer has it, keeps every
/// other role, and no one else's roles change.
pub proof fn lemma_revoke_removes(m: Map<Seq<char>, Seq<RoleView>>, user: Seq<char>, role: RoleView, other: Seq<char>)
    ensures
        !assigned(revoke_spec(m, user, role), user).contains(role),
        forall|x: RoleView| x != role ==> (assigned(revoke_spec(m, user, role), user).contains(x) <==> assigned(m, user).contains(x)),
        other != user ==> assigned(revoke_spec(m, user, role), other) == assigned(m, other),
{
    if m.contains_key(user) {
        lemma_without_role(m[user], role);
    }
}

/// The views of user/roles pairs.
pub open spec fn assignment_views(s: Seq<(String, Vec<Role>)>) -> Seq<(Seq<char>, Seq<RoleView>)> {
    s.map_values(|e: (String, Vec<Role>)| (e.0@, role_views(e.1@)))
}

/// A copy of a list of roles.
fn copy_roles(v: &Vec<Role>) -> (r: Vec<Role>)
    ensures
        role_views(r@) == role_views(v@),
{
    let mut r: Vec<Role> = Vec::new();
    let mut i: usize = 0;
    while i < v.len()
        invariant
            i <= v@.len(),
            r@.len() == i,
            role_views(r@) == role_views(v@.subrange(0, i as int)),
        decreases v@.len() - i,
    {
        let ghost old_r = r@;
        r.push(v[i].copy());
        assert forall|k: int| 0 <= k < i implies r@[k]@ == v@[k]@ by {
            assert(r@[k] == old_r[k]);
            assert(role_views(old_r)[k] == role_views(v@.subrange(0, i as int))[k]);
        }
        i += 1;
        assert(role_views(r@) =~= role_views(v@.subrange(0, i as int)));
    }
    assert(v@.subrange(0, v@.len() as int) =~= v@);
    r
}

/// Role assignments of users.
pub struct RoleManager {
    assignments: Vec<(String, Vec<Role>)>,
}

impl View for RoleManager {
    type V = Map<Seq<char>, Seq<RoleView>>;

    closed spec fn view(&self) -> Map<Seq<char>, Seq<RoleView>> {
        pairs_map(assignment_views(self.assignments@))
    }
}

impl RoleManager {
    #[verifier::type_invariant]
    spec fn users_unique(&self) -> bool {
        keys_unique(assignment_views(self.assignments@))
    }

    /// A manager without assignments.
    pub fn new() -> (m: RoleManager)
        ensures
            m@ == Map::<Seq<char>, Seq<RoleView>>::empty(),
    {
        let m = RoleManager { assignments: Vec::new() };
        assert(assignment_views(m.assignments@) =~= Seq::<(Seq<char>, Seq<RoleView>)>::empty());
        m
    }

    fn find_user(&self, user_id: &str) -> (r: Option<usize>)
        ensures
            match r {
                Some(i) => i < self.assignments@.len() && self.assignments@[i as int].0@ == user_id@
                    && self@.contains_key(user_id@) && self@[user_id@] == role_views(self.assignments@[i as int].1@),
                None => !self@.contains_key(user_id@),
            },
    {
        proof {
            use_type_invariant(self);
            lemma_pairs_map(assignment_views(self.assignments@));
        }
        let ghost av = assignment_views(self.assignments@);
        let mut i: usize = 0;
        while i < self.assignments.len()
            invariant
                i <= self.assignments@.len(),
                av == assignment_views(self.assignments@),
                forall|j: int| 0 <= j < i ==> av[j].0 != user_id@,
            decreases self.assignments@.len() - i,
        {
            if str_eq(self.assignments[i].0.as_str(), user_id) {
                proof {
                    use_type_invariant(self);
                    lemma_pairs_map(av);
                    assert(av[i as int].0 == user_id@);
                }
                return Some(i);
            }
            i += 1;
        }
        None
    }

    /// Gives `role` to `user_id` (after the roles the user already has).
    pub fn assign_role(&mut self, user_id: String, role: Role)
        ensures
            final(self)@ == assign_spec(old(self)@, user_id@, role@),
    {
        proof { use_type_invariant(&*self); }
        let ghost av = assignment_views(self.assignments@);
        match self.find_user(user_id.as_str()) {
            Some(i) => {
                let mut roles = copy_roles(&self.assignments[i].1);
                roles.push(role);
                let ghost nv = role_views(roles@);
                proof {
                    assert(nv =~= role_views(self.assignments@[i as int].1@).push(role@));
                    lemma_pairs_map_update(av, i as int, nv);
                }
                let mut all = Vec::new();
                std::mem::swap(&mut all, &mut self.assignments);
                let ghost before = all@;
                all.set(i, (user_id, roles));
                proof {
                    assert(assignment_views(all@) =~= av.update(i as int, (av[i as int].0, nv)));
                }
                self.assignments = all;
            },
            None => {
                let mut roles: Vec<Role> = Vec::new();
                roles.push(role);
                let ghost nv = role_views(roles@);
                proof {
                    assert(nv =~= Seq::<RoleView>::empty().push(role@));
                    lemma_pairs_map_push(av, user_id@, nv);
                }
                let mut all = Vec::new();
                std::mem::swap(&mut all, &mut self.assignments);
                all.push((user_id, roles));
                proof {
                    assert(assignment_views(all@) =~= av.push((user_id@, nv)));
                }
                self.assignments = all;
            },
        }
    }

    /// Takes every occurrence of `role` from `user_id`; a user without
    /// assignments is left as is.
    pub fn revoke_role(&mut self, user_id: &str, role: &Role)
        ensures
            final(self)@ == revoke_spec(old(self)@, user_id@, role@),
    {
        proof { use_type_invariant(&*self); }
        let ghost av = assignment_views(self.assignments@);
        match self.find_user(user_id) {
            Some(i) => {
                let old_roles = &self.assignments[i].1;
                let ghost ov = role_views(old_roles@);
                let mut kept: Vec<Role> = Vec::new();
                let mut j: usize = 0;
                while j < old_roles.len()
                    invariant
                        j <= old_roles@.len(),
                        ov == role_views(old_roles@),
                        role_views(kept@) == without_role(ov.subrange(0, j as int), role@),
                    decreases old_roles@.len() - j,
                {
                    proof {
                        assert(ov.subrange(0, j + 1).drop_last() =~= ov.subrange(0, j as int));
                        assert(ov.subrange(0, j + 1).last() == old_roles@[j as int]@);
                    }
                    if !old_roles[j].same(role) {
                        kept.push(old_roles[j].copy());
                    }
                    j += 1;
                    assert(role_views(kept@) =~= without_role(ov.subrange(0, j as int), role@));
                }
                assert(ov.subrange(0, ov.len() as int) =~= ov);
                let ghost nv = role_views(kept@);
                let key = self.assignments[i].0.clone();
                proof {
                    lemma_pairs_map_update(av, i as int, nv);
                }
                let mut all = Vec::new();
                std::mem::swap(&mut all, &mut self.assignments);
                all.set(i, (key, kept));
                proof {
                    assert(assignment_views(all@) =~= av.update(i as int, (av[i as int].0, nv)));
                }
                self.assignments = all;
            },
            None => {},
        }
    }

    /// The roles of `user_id`, in the order they were given (none for an
    /// unknown user).
    pub fn get_user_roles(&self, user_id: &str) -> (r: Vec<Role>)
        ensures
            role_views(r@) == assigned(self@, user_id@),
    {
        match self.find_user(user_id) {
            Some(i) => copy_roles(&self.assignments[i].1),
            None => {
                let r: Vec<Role> = Vec::new();
                assert(role_views(r@) =~= Seq::<RoleView>::empty());
                r
            },
        }
    }

    /// Whether `user_id` has `role`.
    pub fn has_role(&self, user_id: &str, role: &Role) -> (b: bool)
        ensures
            b == assigned(self@, user_id@).contains(role@),
    {
        let roles = self.get_user_roles(user_id);
        role_set_contains(&roles, role)
    }
}

impl Default for RoleManager {
    fn default() -> (m: RoleManager)
        ensures
            m@ == Map::<Seq<char>, Seq<RoleView>>::empty(),
    {
        RoleManager::new()
    }
}

} // verus!
