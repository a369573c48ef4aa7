//! Deep merge of a child theme's token JSON over its parent's.
use vstd::prelude::*;
use crate::json::{
    clone_members, get_member, json_obj_view, json_view, lemma_json_obj_view_len, member, Json, JsonV,
};
use crate::text::{lemma_seq_lt_irreflexive, lemma_seq_lt_total, lemma_seq_lt_transitive, seq_lt, str_eq, str_lt};

verus! {

/// Insert a member into a list of members kept in key order, replacing the
/// member with the same key: the list an ordered JSON map iterates.
pub open spec fn obj_insert(m: Seq<(Seq<char>, JsonV)>, k: Seq<char>, v: JsonV) -> Seq<(Seq<char>, JsonV)>
    decreases m.len(),
{
    if m.len() == 0 {
        seq![(k, v)]
    } else if seq_lt(m[0].0, k) {
        seq![m[0]] + obj_insert(m.drop_first(), k, v)
    } else if m[0].0 == k {
        seq![(k, v)] + m.drop_first()
    } else {
        seq![(k, v)] + m
    }
}

/// `child` merged over `parent`: two objects merge member by member (a
/// member in both merges recursively, one only in the child is added, one
/// only in the parent is kept); otherwise the child wins.
pub open spec fn merge_spec(parent: JsonV, child: JsonV) -> JsonV
    decreases child,
{
    match (parent, child) {
        (JsonV::Object(pm), JsonV::Object(cm)) => JsonV::Object(merge_members(pm, cm)),
        _ => child,
    }
}

/// The parent's members with the child members `cm` merged in, in order.
pub open spec fn merge_members(pm: Seq<(Seq<char>, JsonV)>, cm: Seq<(Seq<char>, JsonV)>) -> Seq<(Seq<char>, JsonV)>
    decreases cm,
{
    if cm.len() == 0 {
        pm
    } else {
        let before = merge_members(pm, cm.subrange(0, cm.len() - 1));
        let (k, cv) = cm[cm.len() - 1];
        let mv = match member(pm, k) {
            Some(pv) => merge_spec(pv, cv),
            None => cv,
        };
        obj_insert(before, k, mv)
    }
}

proof fn lemma_merge_members_take(pm: Seq<(Seq<char>, JsonV)>, cm: Seq<(Seq<char>, JsonV)>, i: int)
    requires
        0 <= i < cm.len(),
    ensures
        merge_members(pm, cm.take(i + 1)) == obj_insert(
            merge_members(pm, cm.take(i)),
            cm[i].0,
            match member(pm, cm[i].0) {
                Some(pv) => merge_spec(pv, cm[i].1),
                None => cm[i].1,
            },
        ),
{
    assert(cm.take(i + 1).subrange(0, i) =~= cm.take(i));
}

proof fn lemma_obj_insert_skip(m: Seq<(Seq<char>, JsonV)>, k: Seq<char>, v: JsonV, i: int)
    requires
        0 <= i <= m.len(),
        forall|j: int| 0 <= j < i ==> seq_lt(#[trigger] m[j].0, k),
    ensures
        obj_insert(m, k, v) == m.take(i) + obj_insert(m.skip(i), k, v),
    decreases i,
{
    if i > 0 {
        assert forall|j: int| 0 <= j < i - 1 implies seq_lt(#[trigger] m.drop_first()[j].0, k) by {
            assert(m.drop_first()[j] == m[j + 1]);
        }
        lemma_obj_insert_skip(m.drop_first(), k, v, i - 1);
        assert(m.drop_first().skip(i - 1) =~= m.skip(i));
        assert(seq![m[0]] + m.drop_first().take(i - 1) =~= m.take(i));
        assert(seq_lt(m[0].0, k));
    } else {
        assert(m.skip(0) =~= m);
        assert(m.take(0) =~= Seq::<(Seq<char>, JsonV)>::empty());
    }
}

/// Insert a member into a key-ordered member list, replacing one with the same key.
pub fn insert_member(members: &mut Vec<(String, Json)>, key: String, value: Json)
    ensures
        json_obj_view(final(members)@) == obj_insert(json_obj_view(old(members)@), key@, value@),
{
    let ghost m = json_obj_view(members@);
    proof {
        lemma_json_obj_view_len(members@);
    }
    let mut i: usize = 0;
    while i < members.len() && str_lt(members[i].0.as_str(), key.as_str())
        invariant
            i <= members@.len(),
            m == json_obj_view(members@),
            m.len() == members@.len(),
            forall|k: int| 0 <= k < members@.len() ==> #[trigger] m[k] == (members@[k].0@, json_view(members@[k].1)),
            forall|j: int| 0 <= j < i ==> seq_lt(#[trigger] m[j].0, key@),
        decreases members@.len() - i,
    {
        i = i + 1;
    }
    proof {
        lemma_obj_insert_skip(m, key@, value@, i as int);
    }
    let ghost kv = key@;
    let ghost vv = value@;
    if i < members.len() && str_eq(members[i].0.as_str(), key.as_str()) {
        members.remove(i);
        members.insert(i, (key, value));
        proof {
            lemma_json_obj_view_len(members@);
            assert(m.skip(i as int)[0] == m[i as int]);
            assert(m.skip(i as int).drop_first() =~= m.skip(i + 1));
            assert(json_obj_view(members@) =~= m.take(i as int) + (seq![(kv, vv)] + m.skip(i + 1)));
        }
    } else {
        members.insert(i, (key, value));
        proof {
            lemma_json_obj_view_len(members@);
            if i < m.len() {
                assert(m.skip(i as int)[0] == m[i as int]);
            }
            assert(json_obj_view(members@) =~= m.take(i as int) + (seq![(kv, vv)] + m.skip(i as int)));
        }
    }
}

/// Deep-merge child token JSON over parent token JSON: child values override
/// parent values at the same path, and parent values absent from the child
/// are kept.
pub fn merge_tokens(parent: &Json, child: &Json) -> (r: Json)
    ensures
        r@ == merge_spec(parent@, child@),
    decreases child,
{
    match child {
        Json::Object(c) => {
            let p = match parent {
                Json::Object(p) => p,
                _ => {
                    return child.deep_clone();
                },
            };
            let ghost pm = json_obj_view(p@);
            let ghost cm = json_obj_view(c@);
            proof {
                lemma_json_obj_view_len(c@);
            }
            let mut merged = clone_members(p);
            let mut i: usize = 0;
            while i < c.len()
                invariant
                    i <= c@.len(),
                    *child == Json::Object(*c),
                    pm == json_obj_view(p@),
                    cm == json_obj_view(c@),
                    cm.len() == c@.len(),
                    forall|k: int| 0 <= k < c@.len() ==> #[trigger] cm[k] == (c@[k].0@, json_view(c@[k].1)),
                    json_obj_view(merged@) == merge_members(pm, cm.take(i as int)),
                decreases c@.len() - i,
            {
                proof {
                    broadcast use vstd::std_specs::vec::axiom_vec_index_decreases;
                    lemma_merge_members_take(pm, cm, i as int);
                    assert(cm.take(0) =~= Seq::<(Seq<char>, JsonV)>::empty());
                }
                proof {
                    vstd::std_specs::vec::axiom_vec_index_decreases(*c, i as int);
                    assert(decreases_to!(*c => c[i as int]));
                    assert(decreases_to!(*child => child->Object_0));
                    assert(child->Object_0 == *c);
                    assert(decreases_to!(c[i as int] => c[i as int].1));
                }
                let key = &c[i].0;
                let mv = match get_member(p, key.as_str()) {
                    Some(pv) => merge_tokens(pv, &c[i].1),
                    None => c[i].1.deep_clone(),
                };
                insert_member(&mut merged, key.clone(), mv);
                i = i + 1;
            }
            assert(cm.take(cm.len() as int) =~= cm);
            Json::Object(merged)
        },
        _ => child.deep_clone(),
    }
}


/// Reading a member after inserting it gives the inserted value; other members are unchanged.
pub proof fn lemma_obj_insert_member(m: Seq<(Seq<char>, JsonV)>, k: Seq<char>, v: JsonV, k2: Seq<char>)
    ensures
        member(obj_insert(m, k, v), k2) == if k2 == k { Some(v) } else { member(m, k2) },
    decreases m.len(),
{
    lemma_seq_lt_irreflexive(k);
    let r = obj_insert(m, k, v);
    assert(member(Seq::<(Seq<char>, JsonV)>::empty(), k2) is None);
    assert(r.len() > 0);
    assert(member(r, k2) == if r[0].0 == k2 { Some(r[0].1) } else { member(r.drop_first(), k2) });
    if m.len() > 0 {
        assert(member(m, k2) == if m[0].0 == k2 { Some(m[0].1) } else { member(m.drop_first(), k2) });
    }
    if m.len() == 0 {
        assert(r[0] == (k, v));
        assert(r.drop_first() =~= Seq::<(Seq<char>, JsonV)>::empty());
    } else if seq_lt(m[0].0, k) {
        lemma_obj_insert_member(m.drop_first(), k, v, k2);
        assert(r[0] == m[0]);
        assert(r.drop_first() =~= obj_insert(m.drop_first(), k, v));
    } else if m[0].0 == k {
        assert(r[0] == (k, v));
        assert(r.drop_first() =~= m.drop_first());
    } else {
        assert(r[0] == (k, v));
        assert(r.drop_first() =~= m);
    }
}

proof fn lemma_member_push(s: Seq<(Seq<char>, JsonV)>, x: (Seq<char>, JsonV), k: Seq<char>)
    ensures
        member(s.push(x), k) == match member(s, k) {
            Some(v) => Some(v),
            None => if x.0 == k { Some(x.1) } else { None },
        },
    decreases s.len(),
{
    assert(member(Seq::<(Seq<char>, JsonV)>::empty(), k) is None);
    let t = s.push(x);
    assert(member(t, k) == if t[0].0 == k { Some(t[0].1) } else { member(t.drop_first(), k) });
    if s.len() > 0 {
        assert(member(s, k) == if s[0].0 == k { Some(s[0].1) } else { member(s.drop_first(), k) });
        lemma_member_push(s.drop_first(), x, k);
        assert(s.push(x)[0] == s[0]);
        assert(s.push(x).drop_first() =~= s.drop_first().push(x));
    } else {
        assert(s.push(x)[0] == x);
        assert(s.push(x).drop_first() =~= Seq::<(Seq<char>, JsonV)>::empty());
    }
}

proof fn lemma_member_none(s: Seq<(Seq<char>, JsonV)>, k: Seq<char>)
    requires
        forall|i: int| 0 <= i < s.len() ==> (#[trigger] s[i]).0 != k,
    ensures
        member(s, k) is None,
    decreases s.len(),
{
    if s.len() > 0 {
        assert(s[0].0 != k);
        assert forall|i: int| 0 <= i < s.drop_first().len() implies (#[trigger] s.drop_first()[i]).0 != k by {
            assert(s.drop_first()[i] == s[i + 1]);
        }
        lemma_member_none(s.drop_first(), k);
    }
}

/// The members of an object have distinct names.
pub open spec fn distinct_keys(m: Seq<(Seq<char>, JsonV)>) -> bool {
    forall|i: int, j: int| 0 <= i < j < m.len() ==> m[i].0 != m[j].0
}

/// Merging a child theme's tokens over its parent's: a member the child has
/// is the child's value merged over the parent's (the child's alone when the
/// parent lacks it); a member only the parent has is kept as it is.
pub proof fn law_merge_members(pm: Seq<(Seq<char>, JsonV)>, cm: Seq<(Seq<char>, JsonV)>, k: Seq<char>)
    requires
        distinct_keys(cm),
    ensures
        member(merge_members(pm, cm), k) == match member(cm, k) {
            Some(cv) => Some(
                match member(pm, k) {
                    Some(pv) => merge_spec(pv, cv),
                    None => cv,
                },
            ),
            None => member(pm, k),
        },
    decreases cm.len(),
{
    if cm.len() > 0 {
        let init = cm.subrange(0, cm.len() - 1);
        let last = cm[cm.len() - 1];
        assert(cm =~= init.push(last));
        assert forall|i: int, j: int| 0 <= i < j < init.len() implies init[i].0 != init[j].0 by {
            assert(init[i] == cm[i] && init[j] == cm[j]);
        }
        law_merge_members(pm, init, k);
        let mv = match member(pm, last.0) {
            Some(pv) => merge_spec(pv, last.1),
            None => last.1,
        };
        lemma_obj_insert_member(merge_members(pm, init), last.0, mv, k);
        lemma_member_push(init, last, k);
        if last.0 == k {
            assert forall|i: int| 0 <= i < init.len() implies (#[trigger] init[i]).0 != k by {
                assert(init[i] == cm[i]);
                assert(cm[i].0 != cm[cm.len() - 1].0);
            }
            lemma_member_none(init, k);
        }
    }
}

/// A child that is not an object, or a parent that is not one, leaves the child.
pub proof fn law_merge_non_object(parent: JsonV, child: JsonV)
    requires
        !(parent is Object) || !(child is Object),
    ensures
        merge_spec(parent, child) == child,
{
}

/// An empty child object keeps the parent object as it is.
pub proof fn law_merge_empty_child(pm: Seq<(Seq<char>, JsonV)>)
    ensures
        merge_spec(JsonV::Object(pm), JsonV::Object(Seq::empty())) == JsonV::Object(pm),
{
}


/// Members whose keys strictly increase: how an object read from JSON text keeps them.
pub open spec fn sorted_keys(m: Seq<(Seq<char>, JsonV)>) -> bool {
    forall|i: int, j: int| 0 <= i < j < m.len() ==> seq_lt(#[trigger] m[i].0, #[trigger] m[j].0)
}

proof fn lemma_merge_into_empty(cm: Seq<(Seq<char>, JsonV)>)
    requires
        sorted_keys(cm),
    ensures
        merge_members(Seq::empty(), cm) == cm,
    decreases cm.len(),
{
    if cm.len() > 0 {
        let init = cm.subrange(0, cm.len() - 1);
        let n = init.len() as int;
        assert(sorted_keys(init)) by {
            assert forall|i: int, j: int| 0 <= i < j < init.len() implies seq_lt(#[trigger] init[i].0, #[trigger] init[j].0) by {
                assert(init[i] == cm[i] && init[j] == cm[j]);
            }
        }
        lemma_merge_into_empty(init);
        assert forall|j: int| 0 <= j < n implies seq_lt(#[trigger] init[j].0, cm[n].0) by {
            assert(init[j] == cm[j]);
        }
        lemma_obj_insert_skip(init, cm[n].0, cm[n].1, n);
        assert(init.take(n) =~= init);
        assert(init.skip(n) =~= Seq::<(Seq<char>, JsonV)>::empty());
        assert(init + seq![(cm[n].0, cm[n].1)] =~= cm);
    }
}

/// Merging over an empty parent object gives the child back, for a child read from
/// JSON text (an object's keys in increasing order) or any value that is not an object.
pub proof fn law_merge_empty_parent(child: JsonV)
    requires
        child matches JsonV::Object(cm) ==> sorted_keys(cm),
    ensures
        merge_spec(JsonV::Object(Seq::empty()), child) == child,
{
    if let JsonV::Object(cm) = child {
        lemma_merge_into_empty(cm);
    }
}


/// A value whose objects, at every depth, keep their keys in increasing order: a value
/// read from JSON text.
pub open spec fn json_sorted(j: JsonV) -> bool
    decreases j,
{
    match j {
        JsonV::Object(m) => sorted_keys(m) && members_sorted(m),
        _ => true,
    }
}

/// Every member value is `json_sorted`.
pub open spec fn members_sorted(m: Seq<(Seq<char>, JsonV)>) -> bool
    decreases m,
{
    if m.len() == 0 {
        true
    } else {
        members_sorted(m.subrange(0, m.len() - 1)) && json_sorted(m[m.len() - 1].1)
    }
}

proof fn lemma_members_sorted_at(m: Seq<(Seq<char>, JsonV)>, i: int)
    requires
        members_sorted(m),
        0 <= i < m.len(),
    ensures
        json_sorted(m[i].1),
    decreases m.len(),
{
    if i < m.len() - 1 {
        let init = m.subrange(0, m.len() - 1);
        assert(init[i] == m[i]);
        lemma_members_sorted_at(init, i);
    }
}

proof fn lemma_sorted_distinct(m: Seq<(Seq<char>, JsonV)>)
    requires
        sorted_keys(m),
    ensures
        distinct_keys(m),
{
    assert forall|i: int, j: int| 0 <= i < j < m.len() implies m[i].0 != m[j].0 by {
        assert(seq_lt(m[i].0, m[j].0));
        lemma_seq_lt_irreflexive(m[i].0);
    }
}

/// In a list with distinct keys, each member is found under its key; a key not in the
/// list finds nothing; what is found is at some position.
proof fn lemma_member_at(m: Seq<(Seq<char>, JsonV)>, k: Seq<char>)
    requires
        distinct_keys(m),
    ensures
        forall|i: int| 0 <= i < m.len() && m[i].0 == k ==> member(m, k) == Some(m[i].1),
        member(m, k) is Some ==> exists|i: int| 0 <= i < m.len() && m[i].0 == k && member(m, k) == Some(m[i].1),
        member(m, k) is None ==> forall|i: int| 0 <= i < m.len() ==> m[i].0 != k,
    decreases m.len(),
{
    if m.len() > 0 {
        let t = m.drop_first();
        assert(distinct_keys(t)) by {
            assert forall|i: int, j: int| 0 <= i < j < t.len() implies t[i].0 != t[j].0 by {
                assert(t[i] == m[i + 1] && t[j] == m[j + 1]);
            }
        }
        lemma_member_at(t, k);
        if m[0].0 == k {
            assert forall|i: int| 0 <= i < m.len() && m[i].0 == k implies member(m, k) == Some(m[i].1) by {
                if i > 0 {
                    assert(m[0].0 != m[i].0);
                }
            }
        } else {
            assert forall|i: int| 0 <= i < m.len() && m[i].0 == k implies member(m, k) == Some(m[i].1) by {
                assert(i > 0);
                assert(t[i - 1] == m[i]);
            }
            if member(m, k) is Some {
                let j = choose|j: int| 0 <= j < t.len() && t[j].0 == k && member(t, k) == Some(t[j].1);
                assert(t[j] == m[j + 1]);
            }
            if member(m, k) is None {
                assert forall|i: int| 0 <= i < m.len() implies m[i].0 != k by {
                    if i > 0 {
                        assert(t[i - 1] == m[i]);
                    }
                }
            }
        }
    }
}

proof fn lemma_obj_insert_keys(m: Seq<(Seq<char>, JsonV)>, k: Seq<char>, v: JsonV)
    ensures
        forall|i: int| 0 <= i < obj_insert(m, k, v).len() ==> (#[trigger] obj_insert(m, k, v)[i]).0 == k
            || exists|j: int| 0 <= j < m.len() && m[j].0 == obj_insert(m, k, v)[i].0,
        obj_insert(m, k, v).len() > 0,
        obj_insert(m, k, v)[0].0 == k || (m.len() > 0 && obj_insert(m, k, v)[0].0 == m[0].0),
    decreases m.len(),
{
    let r = obj_insert(m, k, v);
    if m.len() > 0 && seq_lt(m[0].0, k) {
        lemma_obj_insert_keys(m.drop_first(), k, v);
        let r2 = obj_insert(m.drop_first(), k, v);
        assert(r =~= seq![m[0]] + r2);
        assert forall|i: int| 0 <= i < r.len() implies (#[trigger] r[i]).0 == k
            || exists|j: int| 0 <= j < m.len() && m[j].0 == r[i].0 by {
            if i > 0 {
                assert(r[i] == r2[i - 1]);
                if r2[i - 1].0 != k {
                    let j = choose|j: int| 0 <= j < m.drop_first().len() && m.drop_first()[j].0 == r2[i - 1].0;
                    assert(m[j + 1] == m.drop_first()[j]);
                }
            } else {
                assert(m[0].0 == r[0].0);
            }
        }
    } else if m.len() > 0 && m[0].0 == k {
        assert(r =~= seq![(k, v)] + m.drop_first());
        assert forall|i: int| 0 <= i < r.len() implies (#[trigger] r[i]).0 == k
            || exists|j: int| 0 <= j < m.len() && m[j].0 == r[i].0 by {
            if i > 0 {
                assert(r[i] == m[i]);
            }
        }
    } else {
        assert(r =~= seq![(k, v)] + m);
        assert forall|i: int| 0 <= i < r.len() implies (#[trigger] r[i]).0 == k
            || exists|j: int| 0 <= j < m.len() && m[j].0 == r[i].0 by {
            if i > 0 {
                assert(r[i] == m[i - 1]);
            }
        }
    }
}

proof fn lemma_obj_insert_sorted(m: Seq<(Seq<char>, JsonV)>, k: Seq<char>, v: JsonV)
    requires
        sorted_keys(m),
    ensures
        sorted_keys(obj_insert(m, k, v)),
    decreases m.len(),
{
    let r = obj_insert(m, k, v);
    if m.len() == 0 {
    } else if seq_lt(m[0].0, k) {
        let t = m.drop_first();
        assert(sorted_keys(t)) by {
            assert forall|i: int, j: int| 0 <= i < j < t.len() implies seq_lt(#[trigger] t[i].0, #[trigger] t[j].0) by {
                assert(t[i] == m[i + 1] && t[j] == m[j + 1]);
            }
        }
        lemma_obj_insert_sorted(t, k, v);
        lemma_obj_insert_keys(t, k, v);
        let r2 = obj_insert(t, k, v);
        assert(r =~= seq![m[0]] + r2);
        assert forall|i: int, j: int| 0 <= i < j < r.len() implies seq_lt(#[trigger] r[i].0, #[trigger] r[j].0) by {
            if i == 0 {
                assert(r[j] == r2[j - 1]);
                if r2[j - 1].0 != k {
                    let q = choose|q: int| 0 <= q < t.len() && t[q].0 == r2[j - 1].0;
                    assert(t[q] == m[q + 1]);
                    assert(seq_lt(m[0].0, m[q + 1].0));
                }
            } else {
                assert(r[i] == r2[i - 1] && r[j] == r2[j - 1]);
            }
        }
    } else if m[0].0 == k {
        assert(r =~= seq![(k, v)] + m.drop_first());
        assert forall|i: int, j: int| 0 <= i < j < r.len() implies seq_lt(#[trigger] r[i].0, #[trigger] r[j].0) by {
            assert(r[j] == m[j]);
            if i > 0 {
                assert(r[i] == m[i]);
            } else {
                assert(seq_lt(m[0].0, m[j].0));
            }
        }
    } else {
        lemma_seq_lt_total(m[0].0, k);
        assert(r =~= seq![(k, v)] + m);
        assert forall|i: int, j: int| 0 <= i < j < r.len() implies seq_lt(#[trigger] r[i].0, #[trigger] r[j].0) by {
            assert(r[j] == m[j - 1]);
            if i > 0 {
                assert(r[i] == m[i - 1]);
            } else if j - 1 > 0 {
                assert(seq_lt(m[0].0, m[j - 1].0));
                lemma_seq_lt_transitive(k, m[0].0, m[j - 1].0);
            }
        }
    }
}

proof fn lemma_merge_members_sorted(pm: Seq<(Seq<char>, JsonV)>, cm: Seq<(Seq<char>, JsonV)>)
    requires
        sorted_keys(pm),
    ensures
        sorted_keys(merge_members(pm, cm)),
    decreases cm.len(),
{
    if cm.len() > 0 {
        let init = cm.subrange(0, cm.len() - 1);
        lemma_merge_members_sorted(pm, init);
        let (k, cv) = cm[cm.len() - 1];
        let mv = match member(pm, k) {
            Some(pv) => merge_spec(pv, cv),
            None => cv,
        };
        lemma_obj_insert_sorted(merge_members(pm, init), k, mv);
    }
}

/// Two lists with keys in increasing order that find the same value under every key
/// are the same list.
proof fn lemma_sorted_ext(a: Seq<(Seq<char>, JsonV)>, b: Seq<(Seq<char>, JsonV)>)
    requires
        sorted_keys(a),
        sorted_keys(b),
        forall|k: Seq<char>| #[trigger] member(a, k) == member(b, k),
    ensures
        a == b,
    decreases a.len() + b.len(),
{
    lemma_sorted_distinct(a);
    lemma_sorted_distinct(b);
    if a.len() == 0 && b.len() == 0 {
        assert(a =~= b);
    } else if a.len() == 0 {
        lemma_member_at(b, b[0].0);
        assert(member(a, b[0].0) is None);
    } else if b.len() == 0 {
        lemma_member_at(a, a[0].0);
        assert(member(b, a[0].0) is None);
    } else {
        lemma_member_at(a, a[0].0);
        lemma_member_at(b, a[0].0);
        lemma_member_at(a, b[0].0);
        lemma_member_at(b, b[0].0);
        assert(member(b, a[0].0) == Some(a[0].1));
        let j = choose|j: int| 0 <= j < b.len() && b[j].0 == a[0].0 && member(b, a[0].0) == Some(b[j].1);
        let i = choose|i: int| 0 <= i < a.len() && a[i].0 == b[0].0 && member(a, b[0].0) == Some(a[i].1);
        if j > 0 {
            assert(seq_lt(b[0].0, b[j].0));
            if i > 0 {
                assert(seq_lt(a[0].0, a[i].0));
                lemma_seq_lt_total(a[0].0, b[0].0);
            } else {
                lemma_seq_lt_irreflexive(a[0].0);
            }
        }
        assert(j == 0);
        assert(a[0] == b[0]);
        let ta = a.drop_first();
        let tb = b.drop_first();
        assert(sorted_keys(ta)) by {
            assert forall|x: int, y: int| 0 <= x < y < ta.len() implies seq_lt(#[trigger] ta[x].0, #[trigger] ta[y].0) by {
                assert(ta[x] == a[x + 1] && ta[y] == a[y + 1]);
            }
        }
        assert(sorted_keys(tb)) by {
            assert forall|x: int, y: int| 0 <= x < y < tb.len() implies seq_lt(#[trigger] tb[x].0, #[trigger] tb[y].0) by {
                assert(tb[x] == b[x + 1] && tb[y] == b[y + 1]);
            }
        }
        lemma_sorted_distinct(ta);
        lemma_sorted_distinct(tb);
        assert forall|k: Seq<char>| #[trigger] member(ta, k) == member(tb, k) by {
            assert(member(a, k) == member(b, k));
            if k != a[0].0 {
                assert(member(a, k) == member(ta, k));
                assert(member(b, k) == member(tb, k));
            } else {
                lemma_member_at(ta, k);
                lemma_member_at(tb, k);
                if member(ta, k) is Some {
                    let x = choose|x: int| 0 <= x < ta.len() && ta[x].0 == k && member(ta, k) == Some(ta[x].1);
                    assert(ta[x] == a[x + 1]);
                    assert(a[0].0 != a[x + 1].0);
                }
                if member(tb, k) is Some {
                    let x = choose|x: int| 0 <= x < tb.len() && tb[x].0 == k && member(tb, k) == Some(tb[x].1);
                    assert(tb[x] == b[x + 1]);
                    assert(b[0].0 != b[x + 1].0);
                }
            }
        }
        lemma_sorted_ext(ta, tb);
        assert(a =~= seq![a[0]] + ta);
        assert(b =~= seq![b[0]] + tb);
    }
}

/// Merging a value read from JSON text over itself gives it back.
pub proof fn law_merge_self(v: JsonV)
    requires
        json_sorted(v),
    ensures
        merge_spec(v, v) == v,
    decreases v,
{
    if let JsonV::Object(m) = v {
        lemma_sorted_distinct(m);
        lemma_merge_members_sorted(m, m);
        assert forall|k: Seq<char>| #[trigger] member(merge_members(m, m), k) == member(m, k) by {
            law_merge_members(m, m, k);
            lemma_member_at(m, k);
            if member(m, k) is Some {
                let i = choose|i: int| 0 <= i < m.len() && m[i].0 == k && member(m, k) == Some(m[i].1);
                lemma_members_sorted_at(m, i);
                law_merge_self(m[i].1);
            }
        }
        lemma_sorted_ext(merge_members(m, m), m);
    }
}

/// Merging the same child a second time changes nothing, for values read from JSON text.
pub proof fn law_merge_idempotent(parent: JsonV, child: JsonV)
    requires
        json_sorted(parent),
        json_sorted(child),
    ensures
        merge_spec(merge_spec(parent, child), child) == merge_spec(parent, child),
    decreases child,
{
    match (parent, child) {
        (JsonV::Object(pm), JsonV::Object(cm)) => {
            let x = merge_members(pm, cm);
            lemma_sorted_distinct(cm);
            lemma_merge_members_sorted(pm, cm);
            lemma_merge_members_sorted(x, cm);
            assert forall|k: Seq<char>| #[trigger] member(merge_members(x, cm), k) == member(x, k) by {
                law_merge_members(x, cm, k);
                law_merge_members(pm, cm, k);
                lemma_member_at(cm, k);
                if member(cm, k) is Some {
                    let i = choose|i: int| 0 <= i < cm.len() && cm[i].0 == k && member(cm, k) == Some(cm[i].1);
                    lemma_members_sorted_at(cm, i);
                    let cv = cm[i].1;
                    match member(pm, k) {
                        Some(pv) => {
                            lemma_sorted_distinct(pm);
                            lemma_member_at(pm, k);
                            let q = choose|q: int| 0 <= q < pm.len() && pm[q].0 == k && member(pm, k) == Some(pm[q].1);
                            lemma_members_sorted_at(pm, q);
                            law_merge_idempotent(pv, cm[i].1);
                        },
                        None => {
                            law_merge_self(cm[i].1);
                        },
                    }
                }
            }
            lemma_sorted_ext(merge_members(x, cm), x);
        },
        (_, JsonV::Object(cm)) => {
            law_merge_self(child);
        },
        _ => {},
    }
}

} // verus!
