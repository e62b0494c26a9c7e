//! Attribute values (JSON data) and attribute maps used by attribute-based policies.
use vstd::prelude::*;

verus! {

broadcast use vstd::std_specs::vec::group_vec_axioms;

/// A JSON value. Numbers are integers (JSON numbers written without a
/// fraction or exponent).
#[derive(Debug)]
pub enum AttrValue {
    Null,
    Bool(bool),
    Number(i128),
    Str(String),
    Array(Vec<AttrValue>),
    Object(Vec<(String, AttrValue)>),
}

/// Mathematical view of a JSON value.
pub enum JsonView {
    Null,
    Bool(bool),
    Number(int),
    Str(Seq<char>),
    Array(Seq<JsonView>),
    Object(Seq<(Seq<char>, JsonView)>),
}

/// The view of an attribute value.
pub open spec fn jv(v: AttrValue) -> JsonView
    decreases v,
{
    match v {
        AttrValue::Null => JsonView::Null,
        AttrValue::Bool(b) => JsonView::Bool(b),
        AttrValue::Number(n) => JsonView::Number(n as int),
        AttrValue::Str(s) => JsonView::Str(s@),
        AttrValue::Array(items) => JsonView::Array(
            Seq::new(items@.len(), |i: int| if 0 <= i < items@.len() { jv(items@[i]) } else { JsonView::Null }),
        ),
        AttrValue::Object(entries) => JsonView::Object(entries_view(entries@)),
    }
}

/// The view of the entries of an object or attribute map.
pub open spec fn entries_view(entries: Seq<(String, AttrValue)>) -> Seq<(Seq<char>, JsonView)>
    decreases entries,
{
    Seq::new(entries.len(), |i: int| if 0 <= i < entries.len() { (entries[i].0@, jv(entries[i].1)) } else { (Seq::empty(), JsonView::Null) })
}

/// Index of the first entry with key `k`, if any.
pub open spec fn first_key_index(entries: Seq<(Seq<char>, JsonView)>, k: Seq<char>) -> Option<int>
    decreases entries.len(),
{
    if entries.len() == 0 {
        None
    } else if entries[0].0 == k {
        Some(0)
    } else {
        match first_key_index(entries.drop_first(), k) {
            Some(i) => Some(i + 1),
            None => None,
        }
    }
}

/// The value of the first entry with key `k`, if any.
pub open spec fn entry_lookup(entries: Seq<(Seq<char>, JsonView)>, k: Seq<char>) -> Option<JsonView> {
    match first_key_index(entries, k) {
        Some(i) => Some(entries[i].1),
        None => None,
    }
}

/// Keys of the entries are pairwise distinct.
pub open spec fn keys_distinct(entries: Seq<(Seq<char>, JsonView)>) -> bool {
    forall|i: int, j: int| 0 <= i < entries.len() && 0 <= j < entries.len() && i != j ==> entries[i].0 != entries[j].0
}

pub proof fn lemma_first_key_index(entries: Seq<(Seq<char>, JsonView)>, k: Seq<char>)
    ensures
        match first_key_index(entries, k) {
            Some(i) => 0 <= i < entries.len() && entries[i].0 == k
                && forall|j: int| 0 <= j < i ==> entries[j].0 != k,
            None => forall|j: int| 0 <= j < entries.len() ==> entries[j].0 != k,
        },
    decreases entries.len(),
{
    if entries.len() > 0 {
        lemma_first_key_index(entries.drop_first(), k);
        if entries[0].0 != k {
            match first_key_index(entries.drop_first(), k) {
                Some(i) => {
                    assert forall|j: int| 0 <= j < i + 1 implies entries[j].0 != k by {
                        if j > 0 {
                            assert(entries[j] == entries.drop_first()[j - 1]);
                        }
                    }
                },
                None => {
                    assert forall|j: int| 0 <= j < entries.len() implies entries[j].0 != k by {
                        if j > 0 {
                            assert(entries[j] == entries.drop_first()[j - 1]);
                        }
                    }
                },
            }
        }
    }
}

/// Sequences with the same keys at the same positions find the same first index.
pub proof fn lemma_same_keys_first_index(a: Seq<(Seq<char>, JsonView)>, b: Seq<(Seq<char>, JsonView)>, k: Seq<char>)
    requires
        a.len() == b.len(),
        forall|j: int| 0 <= j < a.len() ==> a[j].0 == b[j].0,
    ensures
        first_key_index(a, k) == first_key_index(b, k),
    decreases a.len(),
{
    if a.len() > 0 {
        assert forall|j: int| 0 <= j < a.drop_first().len() implies a.drop_first()[j].0 == b.drop_first()[j].0 by {
            assert(a.drop_first()[j] == a[j + 1]);
            assert(b.drop_first()[j] == b[j + 1]);
        }
        lemma_same_keys_first_index(a.drop_first(), b.drop_first(), k);
    }
}

/// A key found in a prefix is found at the same index in the whole sequence.
pub proof fn lemma_prefix_first_index(s: Seq<(Seq<char>, JsonView)>, n: int, k: Seq<char>)
    requires
        0 <= n <= s.len(),
        first_key_index(s.subrange(0, n), k) is Some,
    ensures
        first_key_index(s, k) == first_key_index(s.subrange(0, n), k),
{
    let p = s.subrange(0, n);
    lemma_first_key_index(p, k);
    lemma_first_key_index(s, k);
    let f = first_key_index(p, k).unwrap();
    assert(s[f] == p[f]);
    match first_key_index(s, k) {
        Some(g) => {
            if g < f { assert(s[g] == p[g]); }
        },
        None => {},
    }
}

/// Equality of JSON values: objects are equal when they have the same number
/// of entries and every key of the first maps to an equal value in the second.
pub open spec fn json_eq(a: JsonView, b: JsonView) -> bool
    decreases a,
{
    match (a, b) {
        (JsonView::Null, JsonView::Null) => true,
        (JsonView::Bool(x), JsonView::Bool(y)) => x == y,
        (JsonView::Number(x), JsonView::Number(y)) => x == y,
        (JsonView::Str(x), JsonView::Str(y)) => x == y,
        (JsonView::Array(x), JsonView::Array(y)) => x.len() == y.len()
            && forall|i: int| 0 <= i < x.len() ==> json_eq(#[trigger] x[i], y[i]),
        (JsonView::Object(x), JsonView::Object(y)) => x.len() == y.len()
            && forall|i: int| 0 <= i < x.len() ==> (#[trigger] entry_lookup(y, x[i].0) matches Some(w) && json_eq(x[i].1, w)),
        _ => false,
    }
}

/// Whether `items` holds a value equal to `v`.
pub open spec fn json_seq_contains(items: Seq<JsonView>, v: JsonView) -> bool {
    exists|i: int| 0 <= i < items.len() && json_eq(#[trigger] items[i], v)
}


/// Index of the first entry of `entries` with key `k`.
pub fn find_entry(entries: &Vec<(String, AttrValue)>, k: &str) -> (r: Option<usize>)
    ensures
        r matches Some(i) ==> first_key_index(entries_view(entries@), k@) == Some(i as int),
        r is None ==> first_key_index(entries_view(entries@), k@) is None,
{
    let ghost ev = entries_view(entries@);
    proof { lemma_first_key_index(ev, k@); }
    let key = String::from_str(k);
    let mut i: usize = 0;
    while i < entries.len()
        invariant
            i <= entries@.len(),
            ev == entries_view(entries@),
            key@ == k@,
            forall|j: int| 0 <= j < i ==> ev[j].0 != k@,
            match first_key_index(ev, k@) {
                Some(f) => 0 <= f < ev.len() && ev[f].0 == k@ && forall|j: int| 0 <= j < f ==> ev[j].0 != k@,
                None => forall|j: int| 0 <= j < ev.len() ==> ev[j].0 != k@,
            },
        decreases entries.len() - i,
    {
        assert(ev[i as int].0 == entries@[i as int].0@);
        if entries[i].0 == key {
            return Some(i);
        }
        i += 1;
    }
    None
}

/// The value of the first entry of `entries` with key `k`.
pub fn entries_get<'a>(entries: &'a Vec<(String, AttrValue)>, k: &str) -> (r: Option<&'a AttrValue>)
    ensures
        match r {
            Some(v) => entry_lookup(entries_view(entries@), k@) == Some(jv(*v)),
            None => entry_lookup(entries_view(entries@), k@) is None,
        },
{
    proof { lemma_first_key_index(entries_view(entries@), k@); }
    match find_entry(entries, k) {
        Some(i) => {
            assert(entries_view(entries@)[i as int].1 == jv(entries@[i as int].1));
            Some(&entries[i].1)
        },
        None => None,
    }
}

/// A copy of an attribute value with the same view.
pub fn copy_value(v: &AttrValue) -> (r: AttrValue)
    ensures
        jv(r) == jv(*v),
    decreases v,
{
    match v {
        AttrValue::Null => AttrValue::Null,
        AttrValue::Bool(b) => AttrValue::Bool(*b),
        AttrValue::Number(n) => AttrValue::Number(*n),
        AttrValue::Str(s) => AttrValue::Str(s.clone()),
        AttrValue::Array(items) => {
            let mut out: Vec<AttrValue> = Vec::new();
            let mut i: usize = 0;
            while i < items.len()
                invariant
                    i <= items@.len(),
                    *v == AttrValue::Array(*items),
                    out@.len() == i,
                    forall|j: int| 0 <= j < i ==> jv(#[trigger] out@[j]) == jv(items@[j]),
                decreases items.len() - i,
            {
                proof { vstd::std_specs::vec::axiom_vec_index_decreases(*items, i as int); }
                assert(decreases_to!(*v => (*v)->Array_0));
                let c = copy_value(&items[i]);
                out.push(c);
                i += 1;
            }
            let r = AttrValue::Array(out);
            assert(jv(r) == jv(*v)) by {
                if let JsonView::Array(a) = jv(r) {
                    if let JsonView::Array(b) = jv(*v) {
                        assert(a =~= b);
                    }
                }
            }
            r
        },
        AttrValue::Object(entries) => {
            let r = AttrValue::Object(copy_entries(entries));
            r
        },
    }
}

/// A copy of a list of entries with the same view.
pub fn copy_entries(entries: &Vec<(String, AttrValue)>) -> (r: Vec<(String, AttrValue)>)
    ensures
        entries_view(r@) == entries_view(entries@),
    decreases entries,
{
    let mut out: Vec<(String, AttrValue)> = Vec::new();
    let mut i: usize = 0;
    while i < entries.len()
        invariant
            i <= entries@.len(),
            out@.len() == i,
            forall|j: int| 0 <= j < i ==> (#[trigger] out@[j]).0@ == entries@[j].0@ && jv(out@[j].1) == jv(entries@[j].1),
        decreases entries.len() - i,
    {
        proof { vstd::std_specs::vec::axiom_vec_index_decreases(*entries, i as int); }
        assert(decreases_to!(entries@[i as int] => entries@[i as int].1));
        let c = copy_value(&entries[i].1);
        out.push((entries[i].0.clone(), c));
        i += 1;
    }
    assert(entries_view(out@) =~= entries_view(entries@));
    out
}

/// Equality of attribute values, with the meaning of `json_eq`.
pub fn value_eq(a: &AttrValue, b: &AttrValue) -> (r: bool)
    ensures
        r == json_eq(jv(*a), jv(*b)),
    decreases a,
{
    match (a, b) {
        (AttrValue::Null, AttrValue::Null) => true,
        (AttrValue::Bool(x), AttrValue::Bool(y)) => *x == *y,
        (AttrValue::Number(x), AttrValue::Number(y)) => *x == *y,
        (AttrValue::Str(x), AttrValue::Str(y)) => *x == *y,
        (AttrValue::Array(x), AttrValue::Array(y)) => {
            let ghost xs = match jv(*a) { JsonView::Array(q) => q, _ => Seq::empty() };
            let ghost ys = match jv(*b) { JsonView::Array(q) => q, _ => Seq::empty() };
            assert(jv(*a) == JsonView::Array(xs));
            assert(jv(*b) == JsonView::Array(ys));
            assert(xs.len() == x@.len());
            assert(ys.len() == y@.len());
            if x.len() != y.len() {
                assert(!json_eq(JsonView::Array(xs), JsonView::Array(ys)));
                return false;
            }
            let mut i: usize = 0;
            while i < x.len()
                invariant
                    i <= x@.len(),
                    x@.len() == y@.len(),
                    xs.len() == x@.len(),
                    ys.len() == y@.len(),
                    forall|j: int| 0 <= j < x@.len() ==> xs[j] == jv(x@[j]),
                    forall|j: int| 0 <= j < y@.len() ==> ys[j] == jv(y@[j]),
                    *a == AttrValue::Array(*x),
                    jv(*a) == JsonView::Array(xs),
                    jv(*b) == JsonView::Array(ys),
                    forall|j: int| 0 <= j < i ==> json_eq(#[trigger] xs[j], ys[j]),
                decreases x.len() - i,
            {
                proof { vstd::std_specs::vec::axiom_vec_index_decreases(*x, i as int); }
                assert(decreases_to!(*a => *x));
                if !value_eq(&x[i], &y[i]) {
                    assert(!json_eq(xs[i as int], ys[i as int]));
                    return false;
                }
                i += 1;
            }
            true
        },
        (AttrValue::Object(x), AttrValue::Object(y)) => {
            let ghost xv = entries_view(x@);
            let ghost yv = entries_view(y@);
            assert(jv(*a) == JsonView::Object(xv));
            assert(jv(*b) == JsonView::Object(yv));
            if x.len() != y.len() {
                return false;
            }
            let mut i: usize = 0;
            while i < x.len()
                invariant
                    i <= x@.len(),
                    x@.len() == y@.len(),
                    xv == entries_view(x@),
                    yv == entries_view(y@),
                    *a == AttrValue::Object(*x),
                    jv(*a) == JsonView::Object(xv),
                    jv(*b) == JsonView::Object(yv),
                    forall|j: int| 0 <= j < i ==> (#[trigger] entry_lookup(yv, xv[j].0) matches Some(w) && json_eq(xv[j].1, w)),
                decreases x.len() - i,
            {
                assert(xv[i as int] == (x@[i as int].0@, jv(x@[i as int].1)));
                proof { vstd::std_specs::vec::axiom_vec_index_decreases(*x, i as int); }
                assert(decreases_to!(*a => *x));
                assert(decreases_to!(x@[i as int] => x@[i as int].1));
                match entries_get(y, x[i].0.as_str()) {
                    Some(w) => {
                        if !value_eq(&x[i].1, w) {
                            assert(!(entry_lookup(yv, xv[i as int].0) matches Some(w) && json_eq(xv[i as int].1, w)));
                            return false;
                        }
                    },
                    None => {
                        assert(!(entry_lookup(yv, xv[i as int].0) matches Some(w) && json_eq(xv[i as int].1, w)));
                        return false;
                    },
                }
                i += 1;
            }
            true
        },
        _ => false,
    }
}


/// `top` laid over `base`: the keys of both, with the values of `top` first.
pub open spec fn overlay(base: Map<Seq<char>, JsonView>, top: Map<Seq<char>, JsonView>) -> Map<Seq<char>, JsonView> {
    Map::new(
        |k: Seq<char>| base.contains_key(k) || top.contains_key(k),
        |k: Seq<char>| if top.contains_key(k) { top[k] } else { base[k] },
    )
}

/// Map from attribute names to values (each name holds one value).
#[derive(Debug)]
pub struct AttrMap {
    entries: Vec<(String, AttrValue)>,
}

impl View for AttrMap {
    type V = Map<Seq<char>, JsonView>;

    closed spec fn view(&self) -> Map<Seq<char>, JsonView> {
        Map::new(
            |k: Seq<char>| entry_lookup(entries_view(self.entries@), k) is Some,
            |k: Seq<char>| entry_lookup(entries_view(self.entries@), k).unwrap(),
        )
    }
}

impl AttrMap {
    #[verifier::type_invariant]
    spec fn keys_unique(&self) -> bool {
        keys_distinct(entries_view(self.entries@))
    }

    /// An empty map.
    pub fn new() -> (m: Self)
        ensures
            m@ == Map::<Seq<char>, JsonView>::empty(),
    {
        let m = AttrMap { entries: Vec::new() };
        assert(m@ =~= Map::<Seq<char>, JsonView>::empty()) by {
            assert forall|k: Seq<char>| !(entry_lookup(entries_view(m.entries@), k) is Some) by {
                lemma_first_key_index(entries_view(m.entries@), k);
            }
        }
        m
    }

    /// The value stored under `k`.
    pub fn get(&self, k: &str) -> (r: Option<&AttrValue>)
        ensures
            match r {
                Some(v) => self@.contains_key(k@) && self@[k@] == jv(*v),
                None => !self@.contains_key(k@),
            },
    {
        entries_get(&self.entries, k)
    }

    /// Stores `v` under `k`, replacing a previous value.
    pub fn insert(&mut self, k: String, v: AttrValue)
        ensures
            final(self)@ == old(self)@.insert(k@, jv(v)),
    {
        proof { use_type_invariant(&*self); }
        let mut entries: Vec<(String, AttrValue)> = Vec::new();
        std::mem::swap(&mut entries, &mut self.entries);
        let ghost old_ev = entries_view(entries@);
        let ghost jvv = jv(v);
        assert(keys_distinct(old_ev));
        proof { lemma_first_key_index(old_ev, k@); }
        match find_entry(&entries, k.as_str()) {
            Some(i) => {
                entries.set(i, (k, v));
                let ghost new_ev = entries_view(entries@);
                assert(new_ev =~= old_ev.update(i as int, (k@, jvv)));
                assert(old_ev[i as int].0 == k@);
                assert forall|q: Seq<char>| #![auto] entry_lookup(new_ev, q) == (if q == k@ { Some(jvv) } else { entry_lookup(old_ev, q) }) by {
                    lemma_same_keys_first_index(new_ev, old_ev, q);
                    lemma_first_key_index(old_ev, q);
                    match first_key_index(old_ev, q) {
                        Some(f) => {
                            if f != i { assert(new_ev[f] == old_ev[f]); } else { assert(q == k@); }
                        },
                        None => { assert(q != k@); },
                    }
                }
                assert(keys_distinct(new_ev)) by {
                    assert forall|a: int, b: int| 0 <= a < new_ev.len() && 0 <= b < new_ev.len() && a != b implies new_ev[a].0 != new_ev[b].0 by {
                        assert(new_ev[a].0 == old_ev[a].0);
                        assert(new_ev[b].0 == old_ev[b].0);
                    }
                }
                self.entries = entries;
                assert(self@ =~= old(self)@.insert(k@, jvv));
            },
            None => {
                entries.push((k, v));
                let ghost new_ev = entries_view(entries@);
                assert(new_ev =~= old_ev.push((k@, jvv)));
                assert forall|q: Seq<char>| #![auto] entry_lookup(new_ev, q) == (if q == k@ { Some(jvv) } else { entry_lookup(old_ev, q) }) by {
                    lemma_first_key_index(new_ev, q);
                    lemma_first_key_index(old_ev, q);
                    match first_key_index(old_ev, q) {
                        Some(f) => {
                            assert(q != k@);
                            match first_key_index(new_ev, q) {
                                Some(g) => {
                                    if g < f { assert(new_ev[g] == old_ev[g]); }
                                    if g > f { assert(new_ev[f] == old_ev[f]); }
                                },
                                None => { assert(new_ev[f] == old_ev[f]); },
                            }
                        },
                        None => {
                            match first_key_index(new_ev, q) {
                                Some(g) => {
                                    if g < old_ev.len() { assert(new_ev[g] == old_ev[g]); }
                                },
                                None => {
                                    if q == k@ { assert(new_ev[old_ev.len() as int].0 == k@); }
                                },
                            }
                        },
                    }
                }
                assert(keys_distinct(new_ev)) by {
                    assert forall|a: int, b: int| 0 <= a < new_ev.len() && 0 <= b < new_ev.len() && a != b implies new_ev[a].0 != new_ev[b].0 by {
                        if a < old_ev.len() { assert(new_ev[a] == old_ev[a]); }
                        if b < old_ev.len() { assert(new_ev[b] == old_ev[b]); }
                    }
                }
                self.entries = entries;
                assert(self@ =~= old(self)@.insert(k@, jvv));
            },
        }
    }

    /// A copy of the map with the same contents.
    pub fn copy(&self) -> (r: AttrMap)
        ensures
            r@ == self@,
    {
        proof { use_type_invariant(self); }
        let r = AttrMap { entries: copy_entries(&self.entries) };
        assert(r@ =~= self@);
        r
    }

    /// Stores every entry of `other`, replacing previous values of the same names.
    pub fn extend(&mut self, other: &AttrMap)
        ensures
            final(self)@ == overlay(old(self)@, other@),
    {
        proof { use_type_invariant(other); }
        let mut i: usize = 0;
        let ghost oev = entries_view(other.entries@);
        while i < other.entries.len()
            invariant
                i <= other.entries@.len(),
                oev == entries_view(other.entries@),
                keys_distinct(oev),
                forall|k: Seq<char>| #![auto] self@.contains_key(k) == (old(self)@.contains_key(k)
                    || entry_lookup(oev.subrange(0, i as int), k) is Some),
                forall|k: Seq<char>| #![auto] self@.contains_key(k) ==> self@[k] == (
                    if entry_lookup(oev.subrange(0, i as int), k) is Some {
                        other@[k]
                    } else {
                        old(self)@[k]
                    }),
            decreases other.entries.len() - i,
        {
            let key = other.entries[i].0.clone();
            let val = copy_value(&other.entries[i].1);
            assert(oev[i as int] == (key@, jv(val)));
            proof {
                lemma_first_key_index(oev, key@);
                lemma_first_key_index(oev.subrange(0, i as int), key@);
                lemma_first_key_index(oev.subrange(0, i + 1), key@);
            }
            self.insert(key, val);
            assert forall|k: Seq<char>| #![auto] (entry_lookup(oev.subrange(0, i + 1), k) is Some) == (entry_lookup(oev.subrange(0, i as int), k) is Some || k == oev[i as int].0) by {
                lemma_first_key_index(oev.subrange(0, i + 1), k);
                lemma_first_key_index(oev.subrange(0, i as int), k);
                assert(oev.subrange(0, i + 1)[i as int] == oev[i as int]);
                match first_key_index(oev.subrange(0, i as int), k) {
                    Some(f) => { assert(oev.subrange(0, i + 1)[f] == oev.subrange(0, i as int)[f]); },
                    None => {
                        match first_key_index(oev.subrange(0, i + 1), k) {
                            Some(g) => { if g < i { assert(oev.subrange(0, i + 1)[g] == oev.subrange(0, i as int)[g]); } },
                            None => {},
                        }
                    },
                }
            }
            assert forall|k: Seq<char>| #![auto] entry_lookup(oev.subrange(0, i as int), k) is Some implies entry_lookup(oev, k) is Some by {
                lemma_prefix_first_index(oev, i as int, k);
            }
            assert(entry_lookup(oev.subrange(0, i as int), key@) is None) by {
                lemma_first_key_index(oev.subrange(0, i as int), key@);
                match first_key_index(oev.subrange(0, i as int), key@) {
                    Some(f) => { assert(oev.subrange(0, i as int)[f] == oev[f]); },
                    None => {},
                }
            }
            assert(entry_lookup(oev.subrange(0, i as int), key@) is None ==> entry_lookup(oev, key@) == Some(jv(val))) by {
                lemma_first_key_index(oev, key@);
                lemma_first_key_index(oev.subrange(0, i as int), key@);
                if entry_lookup(oev.subrange(0, i as int), key@) is None {
                    match first_key_index(oev, key@) {
                        Some(f) => {
                            if f < i { assert(oev.subrange(0, i as int)[f] == oev[f]); }
                            if f > i { assert(oev[i as int].0 == key@); }
                        },
                        None => {},
                    }
                }
            }
            i += 1;
        }
        assert(oev.subrange(0, i as int) =~= oev);
        assert(self@ =~= overlay(old(self)@, other@));
    }
}

} // verus!
