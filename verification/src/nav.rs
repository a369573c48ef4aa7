//! The page index as templates query it: filtered and sorted page lists, and
//! a navigation tree built from page URLs.
use vstd::prelude::*;
use crate::json::{as_str_spec, get_member, json_obj_view, json_seq_view, json_view, lemma_json_obj_view_len, lemma_json_seq_view_len, member, Json, JsonV};
use crate::merge::{insert_member, obj_insert};
use crate::site::{lemma_last_index_range, normalize_url_key, parent_key, parent_url_key, titlecase_prefix, titlecase_segment, url_key};
use crate::text::{chars_of, last_index_of_char, push_char, seq_lt, starts_with, str_eq, str_lt, str_starts_with, string_of_range, trim_end_char, trim_end_char_exec, trim_start_char, trim_start_char_exec};

verus! {

/// The result of comparing two values.
#[derive(Debug, Clone, Copy, PartialEq, Eq, Structural)]
pub enum Order {
    Less,
    Equal,
    Greater,
}

/// Strings in lexicographic order of code points.
pub open spec fn str_order(a: Seq<char>, b: Seq<char>) -> Order {
    if a == b {
        Order::Equal
    } else if seq_lt(a, b) {
        Order::Less
    } else {
        Order::Greater
    }
}

fn str_order_exec(a: &str, b: &str) -> (o: Order)
    ensures
        o == str_order(a@, b@),
{
    if str_eq(a, b) {
        Order::Equal
    } else if str_lt(a, b) {
        Order::Less
    } else {
        Order::Greater
    }
}

/// The member `k` of an object (none for anything else).
pub open spec fn json_get(j: JsonV, k: Seq<char>) -> Option<JsonV> {
    match j {
        JsonV::Object(m) => member(m, k),
        _ => None,
    }
}

/// Two optional field values in sort order: missing values last, numbers by
/// value, anything else by its string (the empty string for a non-string).
pub open spec fn field_order(a: Option<JsonV>, b: Option<JsonV>) -> Order {
    match (a, b) {
        (None, None) => Order::Equal,
        (None, Some(_)) => Order::Greater,
        (Some(_), None) => Order::Less,
        (Some(x), Some(y)) => match (x, y) {
            (JsonV::Number(n), JsonV::Number(m)) => if n.order == m.order {
                Order::Equal
            } else if n.order < m.order {
                Order::Less
            } else {
                Order::Greater
            },
            _ => {
                let sx = match as_str_spec(x) {
                    Some(s) => s,
                    None => Seq::empty(),
                };
                let sy = match as_str_spec(y) {
                    Some(s) => s,
                    None => Seq::empty(),
                };
                str_order(sx, sy)
            },
        },
    }
}

fn str_of(j: &Json) -> (s: &str)
    ensures
        s@ == match as_str_spec(j@) {
            Some(t) => t,
            None => Seq::empty(),
        },
{
    match j {
        Json::String(s) => s.as_str(),
        _ => {
            proof {
                reveal_strlit("");
            }
            ""
        },
    }
}

/// Compare two optional field values for sorting.
pub fn compare_json_values(a: Option<&Json>, b: Option<&Json>) -> (o: Order)
    ensures
        o == field_order(
            match a {
                Some(x) => Some(x@),
                None => None,
            },
            match b {
                Some(x) => Some(x@),
                None => None,
            },
        ),
{
    match (a, b) {
        (None, None) => Order::Equal,
        (None, Some(_)) => Order::Greater,
        (Some(_), None) => Order::Less,
        (Some(x), Some(y)) => match (x, y) {
            (Json::Number(n), Json::Number(m)) => if n.order == m.order {
                Order::Equal
            } else if n.order < m.order {
                Order::Less
            } else {
                Order::Greater
            },
            _ => str_order_exec(str_of(x), str_of(y)),
        },
    }
}

/// The member `k` of a value.
fn get_field<'a>(j: &'a Json, k: &str) -> (r: Option<&'a Json>)
    ensures
        match r {
            Some(v) => json_get(j@, k@) == Some(v@),
            None => json_get(j@, k@) is None,
        },
{
    match j {
        Json::Object(m) => get_member(m, k),
        _ => None,
    }
}

/// Nodes in sort order: by the field `sk` when given, else by title.
pub open spec fn node_order(a: JsonV, b: JsonV, sk: Option<Seq<char>>) -> Order {
    match sk {
        Some(k) => field_order(json_get(a, k), json_get(b, k)),
        None => str_order(
            match json_get(a, "title"@) {
                Some(JsonV::String(s)) => s,
                _ => Seq::empty(),
            },
            match json_get(b, "title"@) {
                Some(JsonV::String(s)) => s,
                _ => Seq::empty(),
            },
        ),
    }
}

fn node_order_exec(a: &Json, b: &Json, sk: Option<&str>) -> (o: Order)
    ensures
        o == node_order(a@, b@, match sk {
            Some(k) => Some(k@),
            None => None,
        }),
{
    match sk {
        Some(k) => {
            let fa = get_field(a, k);
            let fb = get_field(b, k);
            let o = compare_json_values(fa, fb);
            proof {
                let va = match fa {
                    Some(x) => Some(x@),
                    None => None,
                };
                let vb = match fb {
                    Some(x) => Some(x@),
                    None => None,
                };
                assert(va == json_get(a@, k@));
                assert(vb == json_get(b@, k@));
                assert(o == field_order(va, vb));
                assert(node_order(a@, b@, Some(k@)) == field_order(va, vb));
            }
            o
        },
        None => {
            proof {
                reveal_strlit("title");
            }
            let ta = match get_field(a, "title") {
                Some(t) => str_of(t),
                None => "",
            };
            let tb = match get_field(b, "title") {
                Some(t) => str_of(t),
                None => "",
            };
            proof {
                reveal_strlit("");
                assert(ta@ == match json_get(a@, "title"@) {
                    Some(JsonV::String(s)) => s,
                    _ => Seq::empty(),
                });
                assert(tb@ == match json_get(b@, "title"@) {
                    Some(JsonV::String(s)) => s,
                    _ => Seq::empty(),
                });
            }
            str_order_exec(ta, tb)
        },
    }
}

/// `x` inserted before the first element that sorts after it.
pub open spec fn insert_sorted(s: Seq<JsonV>, x: JsonV, sk: Option<Seq<char>>) -> Seq<JsonV>
    decreases s.len(),
{
    if s.len() == 0 {
        seq![x]
    } else if node_order(s[0], x, sk) == Order::Greater {
        seq![x] + s
    } else {
        seq![s[0]] + insert_sorted(s.drop_first(), x, sk)
    }
}

/// The stable sort of a list of nodes: each inserted, in turn, after the
/// ones that do not sort after it.
pub open spec fn isort(s: Seq<JsonV>, sk: Option<Seq<char>>) -> Seq<JsonV>
    decreases s.len(),
{
    if s.len() == 0 {
        Seq::empty()
    } else {
        insert_sorted(isort(s.drop_last(), sk), s.last(), sk)
    }
}

proof fn lemma_insert_sorted_skip(s: Seq<JsonV>, x: JsonV, sk: Option<Seq<char>>, i: int)
    requires
        0 <= i <= s.len(),
        forall|j: int| 0 <= j < i ==> node_order(#[trigger] s[j], x, sk) != Order::Greater,
    ensures
        insert_sorted(s, x, sk) == s.take(i) + insert_sorted(s.skip(i), x, sk),
    decreases i,
{
    if i > 0 {
        assert forall|j: int| 0 <= j < i - 1 implies node_order(#[trigger] s.drop_first()[j], x, sk) != Order::Greater by {
            assert(s.drop_first()[j] == s[j + 1]);
        }
        lemma_insert_sorted_skip(s.drop_first(), x, sk, i - 1);
        assert(s.drop_first().skip(i - 1) =~= s.skip(i));
        assert(seq![s[0]] + s.drop_first().take(i - 1) =~= s.take(i));
    } else {
        assert(s.skip(0) =~= s);
        assert(s.take(0) =~= Seq::<JsonV>::empty());
    }
}

proof fn lemma_json_seq_view_insert(s: Seq<Json>, i: int, x: Json)
    requires
        0 <= i <= s.len(),
    ensures
        json_seq_view(s.insert(i, x)) == json_seq_view(s).take(i) + (seq![json_view(x)] + json_seq_view(s).skip(i)),
{
    lemma_json_seq_view_len(s);
    lemma_json_seq_view_len(s.insert(i, x));
    assert(json_seq_view(s.insert(i, x)) =~= json_seq_view(s).take(i) + (seq![json_view(x)] + json_seq_view(s).skip(i)));
}

/// Insert a node into a sorted list of nodes.
fn insert_node(out: &mut Vec<Json>, x: Json, sk: Option<&str>)
    ensures
        json_seq_view(final(out)@) == insert_sorted(json_seq_view(old(out)@), x@, match sk {
            Some(k) => Some(k@),
            None => None,
        }),
{
    let ghost skv = match sk {
        Some(k) => Some(k@),
        None => None,
    };
    let ghost s = json_seq_view(out@);
    proof {
        lemma_json_seq_view_len(out@);
    }
    let mut i: usize = 0;
    while i < out.len() && node_order_exec(&out[i], &x, sk) != Order::Greater
        invariant
            i <= out@.len(),
            skv == match sk {
                Some(k) => Some(k@),
                None => None,
            },
            s == json_seq_view(out@),
            s.len() == out@.len(),
            forall|k: int| 0 <= k < out@.len() ==> #[trigger] s[k] == json_view(out@[k]),
            forall|j: int| 0 <= j < i ==> node_order(#[trigger] s[j], x@, skv) != Order::Greater,
        decreases out@.len() - i,
    {
        i = i + 1;
    }
    proof {
        lemma_insert_sorted_skip(s, x@, skv, i as int);
        lemma_json_seq_view_insert(out@, i as int, x);
        if i < s.len() {
            assert(s.skip(i as int)[0] == s[i as int]);
        }
        assert(insert_sorted(s.skip(i as int), x@, skv) =~= seq![x@] + s.skip(i as int));
    }
    out.insert(i, x);
}

/// The elements of a vector in reverse order.
pub fn reverse_vec<T>(v: Vec<T>) -> (r: Vec<T>)
    ensures
        r@ == v@.reverse(),
{
    let ghost orig = v@;
    let mut v = v;
    let mut r: Vec<T> = Vec::new();
    while v.len() > 0
        invariant
            v@ == orig.take(v@.len() as int),
            v@.len() <= orig.len(),
            r@ == orig.skip(v@.len() as int).reverse(),
        decreases v@.len(),
    {
        let ghost k = v@.len();
        let x = v.pop().unwrap();
        r.push(x);
        proof {
            assert(v@ =~= orig.take(k - 1));
            assert(r@ =~= orig.skip(k - 1).reverse());
        }
    }
    assert(orig.skip(0) =~= orig);
    r
}

/// Sort nodes (stably) by the field `sk`, or by title.
pub fn sort_nodes(nodes: Vec<Json>, sk: Option<&str>) -> (r: Vec<Json>)
    ensures
        json_seq_view(r@) == isort(json_seq_view(nodes@), match sk {
            Some(k) => Some(k@),
            None => None,
        }),
{
    let ghost skv = match sk {
        Some(k) => Some(k@),
        None => None,
    };
    let ghost nv = json_seq_view(nodes@);
    proof {
        lemma_json_seq_view_len(nodes@);
    }
    let mut out: Vec<Json> = Vec::new();
    proof {
        assert(json_seq_view(out@) =~= Seq::<JsonV>::empty());
    }
    let ghost orig = nodes@;
    let n = nodes.len();
    let mut rest = reverse_vec(nodes);
    let mut i: usize = 0;
    while i < n
        invariant
            i <= n,
            n == orig.len(),
            skv == match sk {
                Some(k) => Some(k@),
                None => None,
            },
            rest@.len() == n - i,
            forall|k: int| 0 <= k < n - i ==> #[trigger] rest@[k] == orig[n - 1 - k],
            nv == json_seq_view(orig),
            nv.len() == orig.len(),
            forall|k: int| 0 <= k < orig.len() ==> #[trigger] nv[k] == json_view(orig[k]),
            json_seq_view(out@) == isort(nv.take(i as int), skv),
        decreases n - i,
    {
        let x = rest.pop().unwrap();
        proof {
            assert(x == orig[i as int]);
            assert(nv.take(i + 1).drop_last() =~= nv.take(i as int));
        }
        insert_node(&mut out, x, sk);
        i = i + 1;
    }
    assert(nv.take(n as int) =~= nv);
    out
}


// ---------------------------------------------------------------------------
// Page lists
// ---------------------------------------------------------------------------

/// Two values are the same JSON: numbers with the same text, strings and
/// booleans equal, arrays and objects member by member.
pub open spec fn json_same(a: JsonV, b: JsonV) -> bool
    decreases a,
{
    match (a, b) {
        (JsonV::Null, JsonV::Null) => true,
        (JsonV::Bool(x), JsonV::Bool(y)) => x == y,
        (JsonV::Number(x), JsonV::Number(y)) => x.raw@ == y.raw@,
        (JsonV::String(x), JsonV::String(y)) => x == y,
        (JsonV::Array(x), JsonV::Array(y)) => seq_same(x, y),
        (JsonV::Object(x), JsonV::Object(y)) => members_same(x, y),
        _ => false,
    }
}

pub open spec fn seq_same(x: Seq<JsonV>, y: Seq<JsonV>) -> bool
    decreases x,
{
    x.len() == y.len() && (x.len() == 0 || (seq_same(x.subrange(0, x.len() - 1), y.subrange(0, y.len() - 1))
        && json_same(x[x.len() - 1], y[y.len() - 1])))
}

pub open spec fn members_same(x: Seq<(Seq<char>, JsonV)>, y: Seq<(Seq<char>, JsonV)>) -> bool
    decreases x,
{
    x.len() == y.len() && (x.len() == 0 || (members_same(x.subrange(0, x.len() - 1), y.subrange(0, y.len() - 1))
        && x[x.len() - 1].0 == y[y.len() - 1].0 && json_same(x[x.len() - 1].1, y[y.len() - 1].1)))
}

proof fn lemma_seq_same(x: Seq<JsonV>, y: Seq<JsonV>)
    requires
        x.len() == y.len(),
    ensures
        seq_same(x, y) == forall|i: int| 0 <= i < x.len() ==> json_same(#[trigger] x[i], y[i]),
    decreases x.len(),
{
    if x.len() > 0 {
        let n = x.len() - 1;
        lemma_seq_same(x.subrange(0, n), y.subrange(0, n));
        if seq_same(x, y) {
            assert forall|i: int| 0 <= i < x.len() implies json_same(#[trigger] x[i], y[i]) by {
                if i < n {
                    assert(x.subrange(0, n)[i] == x[i]);
                    assert(y.subrange(0, n)[i] == y[i]);
                }
            }
        } else if forall|i: int| 0 <= i < x.len() ==> json_same(#[trigger] x[i], y[i]) {
            assert forall|i: int| 0 <= i < n implies json_same(#[trigger] x.subrange(0, n)[i], y.subrange(0, n)[i]) by {
                assert(x.subrange(0, n)[i] == x[i]);
                assert(json_same(x[i], y[i]));
            }
            assert(json_same(x[n], y[n]));
        }
    }
}

proof fn lemma_members_same(x: Seq<(Seq<char>, JsonV)>, y: Seq<(Seq<char>, JsonV)>)
    requires
        x.len() == y.len(),
    ensures
        members_same(x, y) == forall|i: int| 0 <= i < x.len() ==> (#[trigger] x[i]).0 == y[i].0 && json_same(x[i].1, y[i].1),
    decreases x.len(),
{
    if x.len() > 0 {
        let n = x.len() - 1;
        lemma_members_same(x.subrange(0, n), y.subrange(0, n));
        if members_same(x, y) {
            assert forall|i: int| 0 <= i < x.len() implies (#[trigger] x[i]).0 == y[i].0 && json_same(x[i].1, y[i].1) by {
                if i < n {
                    assert(x.subrange(0, n)[i] == x[i]);
                    assert(y.subrange(0, n)[i] == y[i]);
                }
            }
        } else if forall|i: int| 0 <= i < x.len() ==> (#[trigger] x[i]).0 == y[i].0 && json_same(x[i].1, y[i].1) {
            assert forall|i: int| 0 <= i < n implies (#[trigger] x.subrange(0, n)[i]).0 == y.subrange(0, n)[i].0
                && json_same(x.subrange(0, n)[i].1, y.subrange(0, n)[i].1) by {
                assert(x.subrange(0, n)[i] == x[i]);
                assert(y.subrange(0, n)[i] == y[i]);
                assert(x[i].0 == y[i].0 && json_same(x[i].1, y[i].1));
            }
            assert(x[n].0 == y[n].0 && json_same(x[n].1, y[n].1));
        }
    }
}

/// Whether two JSON values are the same.
pub fn json_equal(a: &Json, b: &Json) -> (r: bool)
    ensures
        r == json_same(a@, b@),
    decreases a,
{
    match (a, b) {
        (Json::Null, Json::Null) => true,
        (Json::Bool(x), Json::Bool(y)) => *x == *y,
        (Json::Number(x), Json::Number(y)) => str_eq(x.raw.as_str(), y.raw.as_str()),
        (Json::String(x), Json::String(y)) => str_eq(x.as_str(), y.as_str()),
        (Json::Array(x), Json::Array(y)) => {
            proof {
                lemma_json_seq_view_len(x@);
                lemma_json_seq_view_len(y@);
            }
            if x.len() != y.len() {
                return false;
            }
            let ghost xv = json_seq_view(x@);
            let ghost yv = json_seq_view(y@);
            let mut i: usize = 0;
            while i < x.len()
                invariant
                    i <= x@.len(),
                    x@.len() == y@.len(),
                    *a == Json::Array(*x),
                    *b == Json::Array(*y),
                    xv == json_seq_view(x@),
                    yv == json_seq_view(y@),
                    xv.len() == x@.len(),
                    yv.len() == y@.len(),
                    forall|k: int| 0 <= k < x@.len() ==> #[trigger] xv[k] == json_view(x@[k]),
                    forall|k: int| 0 <= k < y@.len() ==> #[trigger] yv[k] == json_view(y@[k]),
                    forall|k: int| 0 <= k < i ==> json_same(#[trigger] xv[k], yv[k]),
                decreases x@.len() - i,
            {
                proof {
                    vstd::std_specs::vec::axiom_vec_index_decreases(*x, i as int);
                    assert(decreases_to!(*a => a->Array_0));
                }
                if !json_equal(&x[i], &y[i]) {
                    proof {
                        lemma_seq_same(xv, yv);
                        assert(!json_same(xv[i as int], yv[i as int]));
                    }
                    return false;
                }
                i = i + 1;
            }
            proof {
                lemma_seq_same(xv, yv);
            }
            true
        },
        (Json::Object(x), Json::Object(y)) => {
            proof {
                lemma_json_obj_view_len(x@);
                lemma_json_obj_view_len(y@);
            }
            if x.len() != y.len() {
                return false;
            }
            let ghost xv = json_obj_view(x@);
            let ghost yv = json_obj_view(y@);
            let mut i: usize = 0;
            while i < x.len()
                invariant
                    i <= x@.len(),
                    x@.len() == y@.len(),
                    *a == Json::Object(*x),
                    *b == Json::Object(*y),
                    xv == json_obj_view(x@),
                    yv == json_obj_view(y@),
                    xv.len() == x@.len(),
                    yv.len() == y@.len(),
                    forall|k: int| 0 <= k < x@.len() ==> #[trigger] xv[k] == (x@[k].0@, json_view(x@[k].1)),
                    forall|k: int| 0 <= k < y@.len() ==> #[trigger] yv[k] == (y@[k].0@, json_view(y@[k].1)),
                    forall|k: int| 0 <= k < i ==> (#[trigger] xv[k]).0 == yv[k].0 && json_same(xv[k].1, yv[k].1),
                decreases x@.len() - i,
            {
                proof {
                    vstd::std_specs::vec::axiom_vec_index_decreases(*x, i as int);
                    assert(decreases_to!(*a => a->Object_0));
                    assert(decreases_to!(x[i as int] => x[i as int].1));
                }
                if !str_eq(x[i].0.as_str(), y[i].0.as_str()) || !json_equal(&x[i].1, &y[i].1) {
                    proof {
                        lemma_members_same(xv, yv);
                        assert(!(xv[i as int].0 == yv[i as int].0 && json_same(xv[i as int].1, yv[i as int].1)));
                    }
                    return false;
                }
                i = i + 1;
            }
            proof {
                lemma_members_same(xv, yv);
            }
            true
        },
        _ => false,
    }
}

/// `/section`, unless the section already starts with `/`.
pub open spec fn section_prefix(sec: Seq<char>) -> Seq<char> {
    if starts_with(sec, seq!['/']) { sec } else { seq!['/'] + sec }
}

/// A page belongs to the section (its URL starts with the section's path)
/// and has every filter field with the filter's value.
pub open spec fn page_selected(p: JsonV, section: Option<Seq<char>>, filters: Seq<(Seq<char>, JsonV)>) -> bool {
    &&& match section {
        Some(sec) => match json_get(p, "url"@) {
            Some(JsonV::String(u)) => starts_with(u, section_prefix(sec)),
            _ => false,
        },
        None => true,
    }
    &&& forall|i: int| 0 <= i < filters.len() ==> match json_get(p, (#[trigger] filters[i]).0) {
        Some(v) => json_same(v, filters[i].1),
        None => false,
    }
}

/// The selected pages, in order.
pub open spec fn select_pages(ps: Seq<JsonV>, section: Option<Seq<char>>, filters: Seq<(Seq<char>, JsonV)>) -> Seq<JsonV>
    decreases ps.len(),
{
    if ps.len() == 0 {
        Seq::empty()
    } else {
        select_pages(ps.drop_last(), section, filters) + if page_selected(ps.last(), section, filters) {
            seq![ps.last()]
        } else {
            Seq::empty()
        }
    }
}

/// The pages a template asks for: selected, sorted by a field when asked,
/// and reversed when asked.
pub open spec fn pages_spec(
    ps: Seq<JsonV>,
    section: Option<Seq<char>>,
    filters: Seq<(Seq<char>, JsonV)>,
    sort: Option<Seq<char>>,
    reverse: bool,
) -> Seq<JsonV> {
    let r = select_pages(ps, section, filters);
    let r = match sort {
        Some(k) => isort(r, Some(k)),
        None => r,
    };
    if reverse { r.reverse() } else { r }
}

fn selected(p: &Json, section: Option<&str>, filters: &Vec<(String, Json)>) -> (b: bool)
    ensures
        b == page_selected(p@, match section {
            Some(s) => Some(s@),
            None => None,
        }, json_obj_view(filters@)),
{
    let ghost fv = json_obj_view(filters@);
    proof {
        lemma_json_obj_view_len(filters@);
        reveal_strlit("url");
        reveal_strlit("/");
        assert("/"@ =~= seq!['/']);
    }
    let in_section = match section {
        Some(sec) => match get_field(p, "url") {
            Some(Json::String(u)) => {
                if str_starts_with(sec, "/") {
                    str_starts_with(u.as_str(), sec)
                } else {
                    let mut pre = "/".to_owned();
                    pre.append(sec);
                    str_starts_with(u.as_str(), pre.as_str())
                }
            },
            _ => false,
        },
        None => true,
    };
    if !in_section {
        return false;
    }
    let mut i: usize = 0;
    while i < filters.len()
        invariant
            i <= filters@.len(),
            fv == json_obj_view(filters@),
            fv.len() == filters@.len(),
            forall|k: int| 0 <= k < filters@.len() ==> #[trigger] fv[k] == (filters@[k].0@, json_view(filters@[k].1)),
            forall|k: int| 0 <= k < i ==> match json_get(p@, (#[trigger] fv[k]).0) {
                Some(v) => json_same(v, fv[k].1),
                None => false,
            },
        decreases filters@.len() - i,
    {
        let ok = match get_field(p, filters[i].0.as_str()) {
            Some(v) => json_equal(v, &filters[i].1),
            None => false,
        };
        if !ok {
            assert(!match json_get(p@, fv[i as int].0) {
                Some(v) => json_same(v, fv[i as int].1),
                None => false,
            });
            return false;
        }
        i = i + 1;
    }
    true
}

/// Query the page index: pages whose URL starts with `/section` (when
/// given) and whose fields equal the filters, sorted by the field `sort`
/// (when given) and then reversed (when asked).
pub fn query_pages(
    index: &Vec<Json>,
    section: Option<&str>,
    filters: &Vec<(String, Json)>,
    sort: Option<&str>,
    reverse: bool,
) -> (r: Vec<Json>)
    ensures
        json_seq_view(r@) == pages_spec(
            json_seq_view(index@),
            match section {
                Some(s) => Some(s@),
                None => None,
            },
            json_obj_view(filters@),
            match sort {
                Some(s) => Some(s@),
                None => None,
            },
            reverse,
        ),
{
    let ghost iv = json_seq_view(index@);
    let ghost sec = match section {
        Some(s) => Some(s@),
        None => None,
    };
    proof {
        lemma_json_seq_view_len(index@);
    }
    let mut results: Vec<Json> = Vec::new();
    proof {
        assert(json_seq_view(results@) =~= Seq::<JsonV>::empty());
    }
    let mut i: usize = 0;
    while i < index.len()
        invariant
            i <= index@.len(),
            iv == json_seq_view(index@),
            iv.len() == index@.len(),
            sec == match section {
                Some(s) => Some(s@),
                None => None,
            },
            forall|k: int| 0 <= k < index@.len() ==> #[trigger] iv[k] == json_view(index@[k]),
            json_seq_view(results@) == select_pages(iv.take(i as int), sec, json_obj_view(filters@)),
        decreases index@.len() - i,
    {
        proof {
            assert(iv.take(i + 1).drop_last() =~= iv.take(i as int));
        }
        let ghost before = json_seq_view(results@);
        if selected(&index[i], section, filters) {
            let p = index[i].deep_clone();
            proof {
                crate::json::lemma_json_seq_view_push(results@, p);
            }
            results.push(p);
        } else {
            assert(json_seq_view(results@) =~= before + Seq::<JsonV>::empty());
        }
        i = i + 1;
    }
    assert(iv.take(index@.len() as int) =~= iv);
    let sorted = match sort {
        Some(k) => sort_nodes(results, Some(k)),
        None => results,
    };
    if reverse {
        let r = reverse_vec(sorted);
        proof {
            lemma_json_seq_view_len(sorted@);
            lemma_json_seq_view_len(r@);
            assert(json_seq_view(r@) =~= json_seq_view(sorted@).reverse());
        }
        r
    } else {
        sorted
    }
}


// ---------------------------------------------------------------------------
// Navigation tree
// ---------------------------------------------------------------------------

/// The `url` of a page, when it is a string.
pub open spec fn page_url(p: JsonV) -> Option<Seq<char>> {
    match json_get(p, "url"@) {
        Some(JsonV::String(u)) => Some(u),
        _ => None,
    }
}

/// The pages with a URL, keyed by their normalized URL in key order (a later
/// page with the same key replaces an earlier one).
pub open spec fn page_map(ps: Seq<JsonV>) -> Seq<(Seq<char>, JsonV)>
    decreases ps.len(),
{
    if ps.len() == 0 {
        Seq::empty()
    } else {
        let m = page_map(ps.drop_last());
        match page_url(ps.last()) {
            Some(u) => obj_insert(m, url_key(u), ps.last()),
            None => m,
        }
    }
}

/// The key of the tree's root: `/`, or `/` and the root path without slashes
/// around it.
pub open spec fn root_key_spec(root: Seq<char>) -> Seq<char> {
    if root.len() == 0 || root == seq!['/'] {
        seq!['/']
    } else {
        seq!['/'] + trim_end_char(trim_start_char(root, '/'), '/')
    }
}

/// How far a key is from the root key `/`: parents rank lower than their children.
pub open spec fn key_rank(c: Seq<char>) -> int {
    if c == seq!['/'] { 0 } else { c.len() as int + 1 }
}

pub proof fn lemma_parent_rank(c: Seq<char>)
    ensures
        parent_key(c) matches Some(p) ==> key_rank(p) < key_rank(c),
{
    lemma_last_index_range(c, '/');
}

/// The last non-empty `/`-separated segment of a key (empty when there is none).
pub open spec fn last_segment(k: Seq<char>) -> Seq<char> {
    let t = trim_end_char(k, '/');
    match last_index_of_char(t, '/') {
        Some(i) => t.skip(i + 1),
        None => t,
    }
}

/// The node for a directory with no page: its URL, a title from its last
/// segment, and a `synthetic` mark.
pub open spec fn synthetic(k: Seq<char>) -> JsonV {
    let seg = last_segment(k);
    JsonV::Object(
        seq![
            ("synthetic"@, JsonV::Bool(true)),
            ("title"@, JsonV::String(titlecase_prefix(seg, seg.len() as int))),
            ("url"@, JsonV::String(if k == seq!['/'] { seq!['/'] } else { k + seq!['/'] })),
        ],
    )
}

/// The map after adding synthetic nodes for the missing ancestors of `cur`,
/// up to the first one present or the root.
pub open spec fn walk(pm: Seq<(Seq<char>, JsonV)>, cur: Seq<char>, rk: Seq<char>) -> Seq<(Seq<char>, JsonV)>
    decreases key_rank(cur),
{
    match parent_key(cur) {
        None => pm,
        Some(par) => {
            proof {
                lemma_parent_rank(cur);
            }
            if member(pm, par) is Some || par == rk {
                pm
            } else {
                walk(obj_insert(pm, par, synthetic(par)), par, rk)
            }
        },
    }
}

/// The map after walking up from each of `keys`, in order.
pub open spec fn add_synthetic(pm: Seq<(Seq<char>, JsonV)>, keys: Seq<Seq<char>>, rk: Seq<char>) -> Seq<(Seq<char>, JsonV)>
    decreases keys.len(),
{
    if keys.len() == 0 {
        pm
    } else {
        walk(add_synthetic(pm, keys.drop_last(), rk), keys.last(), rk)
    }
}

/// The keys of a map.
pub open spec fn keys_of(m: Seq<(Seq<char>, JsonV)>) -> Seq<Seq<char>> {
    m.map_values(|e: (Seq<char>, JsonV)| e.0)
}

/// A parent whose children the tree shows: any, under the root `/`; else the
/// root and the keys below it.
pub open spec fn under_root(parent: Seq<char>, rk: Seq<char>) -> bool {
    rk == seq!['/'] || parent == rk || starts_with(parent, rk + seq!['/'])
}

/// The highest rank of a key of the map.
pub open spec fn max_rank(m: Seq<(Seq<char>, JsonV)>) -> int
    decreases m.len(),
{
    if m.len() == 0 {
        0
    } else {
        let r = max_rank(m.drop_last());
        if key_rank(m.last().0) > r { key_rank(m.last().0) } else { r }
    }
}

/// Whether `k` is a child of `key` in the tree.
pub open spec fn is_child(k: Seq<char>, key: Seq<char>, rk: Seq<char>) -> bool {
    k != rk && parent_key(k) == Some(key) && under_root(key, rk)
}

/// The children of `key`, in key order (all keys rank at most `bound`).
pub open spec fn children(all: Seq<(Seq<char>, JsonV)>, key: Seq<char>, rk: Seq<char>, bound: int) -> Seq<Seq<char>>
    decreases all.len(),
{
    if all.len() == 0 {
        Seq::empty()
    } else {
        let k = all.last().0;
        children(all.drop_last(), key, rk, bound) + if is_child(k, key, rk) && key_rank(k) <= bound {
            seq![k]
        } else {
            Seq::empty()
        }
    }
}

pub proof fn lemma_children_props(all: Seq<(Seq<char>, JsonV)>, key: Seq<char>, rk: Seq<char>, bound: int)
    ensures
        forall|i: int| 0 <= i < children(all, key, rk, bound).len() ==> {
            let k = #[trigger] children(all, key, rk, bound)[i];
            parent_key(k) == Some(key) && key_rank(k) <= bound
        },
    decreases all.len(),
{
    if all.len() > 0 {
        lemma_children_props(all.drop_last(), key, rk, bound);
    }
}

/// The depth limit is reached.
pub open spec fn at_limit(depth: int, max_depth: Option<nat>) -> bool {
    match max_depth {
        Some(d) => depth >= d,
        None => false,
    }
}

/// The node for `key` at `depth`: its page (or an empty object) with its
/// children's nodes, sorted, under `children` (none at the depth limit).
pub open spec fn make_node(
    all: Seq<(Seq<char>, JsonV)>,
    key: Seq<char>,
    depth: int,
    rk: Seq<char>,
    sk: Option<Seq<char>>,
    max_depth: Option<nat>,
    bound: int,
) -> JsonV
    decreases bound - key_rank(key), children(all, key, rk, bound).len() + 1,
{
    let node = match member(all, key) {
        Some(n) => n,
        None => JsonV::Object(Seq::empty()),
    };
    let kids = if at_limit(depth, max_depth) {
        Seq::empty()
    } else {
        isort(
            make_children(all, key, depth, rk, sk, max_depth, bound, children(all, key, rk, bound).len() as int),
            sk,
        )
    };
    match node {
        JsonV::Object(m) => JsonV::Object(obj_insert(m, "children"@, JsonV::Array(kids))),
        _ => node,
    }
}

/// The nodes of the first `n` children of `key`, one level deeper.
pub open spec fn make_children(
    all: Seq<(Seq<char>, JsonV)>,
    key: Seq<char>,
    depth: int,
    rk: Seq<char>,
    sk: Option<Seq<char>>,
    max_depth: Option<nat>,
    bound: int,
    n: int,
) -> Seq<JsonV>
    decreases bound - key_rank(key), n,
{
    let cs = children(all, key, rk, bound);
    if n <= 0 || n > cs.len() {
        Seq::empty()
    } else {
        proof {
            lemma_children_props(all, key, rk, bound);
            lemma_parent_rank(cs[n - 1]);
        }
        make_children(all, key, depth, rk, sk, max_depth, bound, n - 1).push(
            make_node(all, cs[n - 1], depth + 1, rk, sk, max_depth, bound),
        )
    }
}

/// The navigation tree of the pages under `root`: the root's children
/// (depth 1), each with its own children, sorted by `sort_key` or by title.
pub open spec fn nav_tree_spec(
    pages: Seq<JsonV>,
    root: Seq<char>,
    sk: Option<Seq<char>>,
    max_depth: Option<nat>,
) -> Seq<JsonV> {
    let rk = root_key_spec(root);
    let pm = page_map(pages);
    let all = add_synthetic(pm, keys_of(pm), rk);
    let bound = max_rank(all);
    isort(
        make_children(all, rk, 0, rk, sk, max_depth, bound, children(all, rk, rk, bound).len() as int),
        sk,
    )
}


fn build_page_map(pages: &Vec<Json>) -> (pm: Vec<(String, Json)>)
    ensures
        json_obj_view(pm@) == page_map(json_seq_view(pages@)),
{
    let ghost pv = json_seq_view(pages@);
    proof {
        lemma_json_seq_view_len(pages@);
        reveal_strlit("url");
    }
    let mut pm: Vec<(String, Json)> = Vec::new();
    proof {
        assert(json_obj_view(pm@) =~= Seq::<(Seq<char>, JsonV)>::empty());
    }
    let mut i: usize = 0;
    while i < pages.len()
        invariant
            i <= pages@.len(),
            pv == json_seq_view(pages@),
            pv.len() == pages@.len(),
            forall|k: int| 0 <= k < pages@.len() ==> #[trigger] pv[k] == json_view(pages@[k]),
            json_obj_view(pm@) == page_map(pv.take(i as int)),
        decreases pages@.len() - i,
    {
        proof {
            assert(pv.take(i + 1).drop_last() =~= pv.take(i as int));
        }
        match get_field(&pages[i], "url") {
            Some(Json::String(u)) => {
                let key = normalize_url_key(u.as_str());
                insert_member(&mut pm, key, pages[i].deep_clone());
            },
            _ => {},
        }
        i = i + 1;
    }
    assert(pv.take(pages@.len() as int) =~= pv);
    pm
}

fn root_key(root: &str) -> (r: String)
    ensures
        r@ == root_key_spec(root@),
{
    proof {
        reveal_strlit("/");
        assert("/"@ =~= seq!['/']);
    }
    if root.is_empty() || str_eq(root, "/") {
        return "/".to_owned();
    }
    let a = trim_start_char_exec(root, '/');
    let b = trim_end_char_exec(a.as_str(), '/');
    let mut r = "/".to_owned();
    r.append(b.as_str());
    r
}

fn last_segment_exec(k: &str) -> (r: String)
    ensures
        r@ == last_segment(k@),
{
    let t = trim_end_char_exec(k, '/');
    let v = chars_of(t.as_str());
    let mut n: usize = v.len();
    assert(v@.take(v@.len() as int) =~= v@);
    while n > 0 && v[n - 1] != '/'
        invariant
            n <= v@.len(),
            last_index_of_char(v@, '/') == last_index_of_char(v@.take(n as int), '/'),
        decreases n,
    {
        proof {
            assert(v@.take(n as int).drop_last() =~= v@.take(n - 1));
        }
        n = n - 1;
    }
    proof {
        if n > 0 {
            assert(v@.take(n as int).last() == v@[n - 1]);
        } else {
            assert(v@.take(0) =~= Seq::<char>::empty());
        }
    }
    if n > 0 {
        string_of_range(&v, n, v.len())
    } else {
        assert(v@.subrange(0, v@.len() as int) =~= v@);
        string_of_range(&v, 0, v.len())
    }
}

fn synthetic_node(k: &str) -> (r: Json)
    ensures
        r@ == synthetic(k@),
{
    let seg = last_segment_exec(k);
    let title = titlecase_segment(seg.as_str());
    proof {
        reveal_strlit("/");
        assert("/"@ =~= seq!['/']);
    }
    let url = if str_eq(k, "/") {
        "/".to_owned()
    } else {
        let mut u = k.to_owned();
        push_char(&mut u, '/');
        assert(u@ =~= k@ + seq!['/']);
        u
    };
    let members = vec![
        ("synthetic".to_owned(), Json::Bool(true)),
        ("title".to_owned(), Json::String(title)),
        ("url".to_owned(), Json::String(url)),
    ];
    proof {
        lemma_json_obj_view_len(members@);
        assert(json_obj_view(members@) =~= seq![
            ("synthetic"@, JsonV::Bool(true)),
            ("title"@, JsonV::String(titlecase_prefix(last_segment(k@), last_segment(k@).len() as int))),
            ("url"@, JsonV::String(if k@ == seq!['/'] { seq!['/'] } else { k@ + seq!['/'] })),
        ]);
    }
    Json::Object(members)
}

fn walk_exec(pm: &mut Vec<(String, Json)>, key: &str, rk: &str)
    ensures
        json_obj_view(final(pm)@) == walk(json_obj_view(old(pm)@), key@, rk@),
{
    let ghost target = walk(json_obj_view(pm@), key@, rk@);
    let mut current = key.to_owned();
    let mut done = false;
    while !done
        invariant
            done ==> json_obj_view(pm@) == target,
            !done ==> walk(json_obj_view(pm@), current@, rk@) == target,
        decreases (if done { 0 } else { key_rank(current@) + 1 }),
    {
        proof {
            lemma_parent_rank(current@);
            if current@ == seq!['/'] {
            } else {
                assert(key_rank(current@) >= 0);
            }
        }
        match parent_url_key(current.as_str()) {
            None => {
                done = true;
            },
            Some(par) => {
                let present = match get_member(pm, par.as_str()) {
                    Some(_) => true,
                    None => false,
                };
                if present || str_eq(par.as_str(), rk) {
                    done = true;
                } else {
                    let node = synthetic_node(par.as_str());
                    insert_member(pm, par.clone(), node);
                    current = par;
                }
            },
        }
    }
}

pub proof fn lemma_max_rank(m: Seq<(Seq<char>, JsonV)>)
    ensures
        forall|i: int| 0 <= i < m.len() ==> key_rank((#[trigger] m[i]).0) <= max_rank(m),
        max_rank(m) >= 0,
    decreases m.len(),
{
    if m.len() > 0 {
        lemma_max_rank(m.drop_last());
        assert forall|i: int| 0 <= i < m.len() implies key_rank((#[trigger] m[i]).0) <= max_rank(m) by {
            if i < m.len() - 1 {
                assert(m.drop_last()[i] == m[i]);
            }
        }
    }
}

fn is_child_exec(k: &str, key: &str, rk: &str) -> (b: bool)
    ensures
        b == is_child(k@, key@, rk@),
{
    if str_eq(k, rk) {
        return false;
    }
    let parent_ok = match parent_url_key(k) {
        Some(p) => str_eq(p.as_str(), key),
        None => false,
    };
    if !parent_ok {
        return false;
    }
    proof {
        reveal_strlit("/");
        assert("/"@ =~= seq!['/']);
    }
    let mut prefix = rk.to_owned();
    push_char(&mut prefix, '/');
    assert(prefix@ =~= rk@ + seq!['/']);
    str_eq(rk, "/") || str_eq(key, rk) || str_starts_with(key, prefix.as_str())
}

fn children_exec(all: &Vec<(String, Json)>, key: &str, rk: &str, Ghost(bound): Ghost<int>) -> (cs: Vec<String>)
    requires
        bound == max_rank(json_obj_view(all@)),
    ensures
        cs@.map_values(|c: String| c@) == children(json_obj_view(all@), key@, rk@, bound),
{
    let ghost av = json_obj_view(all@);
    proof {
        lemma_json_obj_view_len(all@);
        lemma_max_rank(av);
    }
    let mut cs: Vec<String> = Vec::new();
    let mut i: usize = 0;
    while i < all.len()
        invariant
            i <= all@.len(),
            av == json_obj_view(all@),
            av.len() == all@.len(),
            bound == max_rank(av),
            forall|k: int| 0 <= k < all@.len() ==> #[trigger] av[k] == (all@[k].0@, json_view(all@[k].1)),
            forall|k: int| 0 <= k < av.len() ==> key_rank((#[trigger] av[k]).0) <= bound,
            cs@.map_values(|c: String| c@) == children(av.take(i as int), key@, rk@, bound),
        decreases all@.len() - i,
    {
        proof {
            assert(av.take(i + 1).drop_last() =~= av.take(i as int));
            assert(av[i as int].0 == all@[i as int].0@);
        }
        let ghost before = cs@.map_values(|c: String| c@);
        if is_child_exec(all[i].0.as_str(), key, rk) {
            cs.push(all[i].0.clone());
            assert(cs@.map_values(|c: String| c@) =~= before + seq![av[i as int].0]);
        } else {
            assert(cs@.map_values(|c: String| c@) =~= before + Seq::<Seq<char>>::empty());
        }
        i = i + 1;
    }
    assert(av.take(all@.len() as int) =~= av);
    cs
}

/// The remaining depth budget: the levels left before the limit.
pub open spec fn budget_of(max_depth: Option<nat>, depth: int) -> Option<int> {
    match max_depth {
        Some(d) => Some(if d >= depth { d - depth } else { 0 }),
        None => None,
    }
}

fn make_node_exec(
    all: &Vec<(String, Json)>,
    key: &str,
    Ghost(depth): Ghost<int>,
    budget: Option<usize>,
    rk: &str,
    sk: Option<&str>,
    Ghost(max_depth): Ghost<Option<nat>>,
    Ghost(bound): Ghost<int>,
) -> (r: Json)
    requires
        bound == max_rank(json_obj_view(all@)),
        depth >= 0,
        key_rank(key@) <= bound,
        match budget {
            Some(b) => budget_of(max_depth, depth) == Some(b as int),
            None => budget_of(max_depth, depth) is None,
        },
    ensures
        r@ == make_node(json_obj_view(all@), key@, depth, rk@, match sk {
            Some(k) => Some(k@),
            None => None,
        }, max_depth, bound),
    decreases bound - key_rank(key@),
{
    let ghost av = json_obj_view(all@);
    let ghost skv = match sk {
        Some(k) => Some(k@),
        None => None,
    };
    let node = match get_member(all, key) {
        Some(n) => n.deep_clone(),
        None => {
            let e: Vec<(String, Json)> = Vec::new();
            proof {
                assert(json_obj_view(e@) =~= Seq::<(Seq<char>, JsonV)>::empty());
            }
            Json::Object(e)
        },
    };
    let limit = match budget {
        Some(b) => b == 0,
        None => false,
    };
    let kids: Vec<Json> = if limit {
        let e: Vec<Json> = Vec::new();
        proof {
            assert(json_seq_view(e@) =~= Seq::<JsonV>::empty());
        }
        e
    } else {
        let cs = children_exec(all, key, rk, Ghost(bound));
        let ghost csv = children(av, key@, rk@, bound);
        proof {
            lemma_children_props(av, key@, rk@, bound);
            assert(cs@.len() == csv.len());
        }
        let child_budget = match budget {
            Some(b) => Some(b - 1),
            None => None,
        };
        let mut nodes: Vec<Json> = Vec::new();
        proof {
            assert(json_seq_view(nodes@) =~= Seq::<JsonV>::empty());
        }
        let mut i: usize = 0;
        while i < cs.len()
            invariant
                i <= cs@.len(),
                csv == children(av, key@, rk@, bound),
                cs@.map_values(|c: String| c@) == csv,
                av == json_obj_view(all@),
                bound == max_rank(av),
                depth >= 0,
                key_rank(key@) <= bound,
                !at_limit(depth, max_depth),
                skv == match sk {
                    Some(k) => Some(k@),
                    None => None,
                },
                match child_budget {
                    Some(b) => budget_of(max_depth, depth + 1) == Some(b as int),
                    None => budget_of(max_depth, depth + 1) is None,
                },
                forall|q: int| 0 <= q < csv.len() ==> {
                    let k = #[trigger] csv[q];
                    parent_key(k) == Some(key@) && key_rank(k) <= bound
                },
                json_seq_view(nodes@) == make_children(av, key@, depth, rk@, skv, max_depth, bound, i as int),
            decreases cs@.len() - i,
        {
            proof {
                assert(cs@[i as int]@ == csv[i as int]);
                lemma_parent_rank(csv[i as int]);
            }
            let child = make_node_exec(all, cs[i].as_str(), Ghost(depth + 1), child_budget, rk, sk, Ghost(max_depth), Ghost(bound));
            proof {
                crate::json::lemma_json_seq_view_push(nodes@, child);
            }
            nodes.push(child);
            i = i + 1;
        }
        sort_nodes(nodes, sk)
    };
    match node {
        Json::Object(mut m) => {
            proof {
                reveal_strlit("children");
            }
            insert_member(&mut m, "children".to_owned(), Json::Array(kids));
            Json::Object(m)
        },
        other => other,
    }
}

/// Build the navigation tree of the page index under `root`: every page with
/// a URL is placed under its parent URL (directories without a page get a
/// synthetic node titled after the directory), children sorted by
/// `sort_key` (else by title), down to `max_depth` levels.
pub fn build_nav_tree(pages: &Vec<Json>, root: &str, sort_key: Option<&str>, max_depth: Option<usize>) -> (r: Vec<Json>)
    ensures
        json_seq_view(r@) == nav_tree_spec(
            json_seq_view(pages@),
            root@,
            match sort_key {
                Some(k) => Some(k@),
                None => None,
            },
            match max_depth {
                Some(d) => Some(d as nat),
                None => None,
            },
        ),
{
    let ghost md = match max_depth {
        Some(d) => Some(d as nat),
        None => None,
    };
    let ghost skv = match sort_key {
        Some(k) => Some(k@),
        None => None,
    };
    let mut pm = build_page_map(pages);
    let rk = root_key(root);
    let ghost pm0 = json_obj_view(pm@);
    proof {
        lemma_json_obj_view_len(pm@);
    }
    let mut keys: Vec<String> = Vec::new();
    let mut i: usize = 0;
    while i < pm.len()
        invariant
            i <= pm@.len(),
            pm0 == json_obj_view(pm@),
            pm0.len() == pm@.len(),
            forall|k: int| 0 <= k < pm@.len() ==> #[trigger] pm0[k] == (pm@[k].0@, json_view(pm@[k].1)),
            keys@.map_values(|c: String| c@) == keys_of(pm0).take(i as int),
        decreases pm@.len() - i,
    {
        proof {
            assert(pm0[i as int] == (pm@[i as int].0@, json_view(pm@[i as int].1)));
        }
        let ghost before = keys@.map_values(|c: String| c@);
        keys.push(pm[i].0.clone());
        assert(keys@.map_values(|c: String| c@) =~= before.push(pm0[i as int].0));
        assert(keys_of(pm0).take(i + 1) =~= keys_of(pm0).take(i as int).push(pm0[i as int].0));
        i = i + 1;
    }
    assert(keys_of(pm0).take(pm0.len() as int) =~= keys_of(pm0));
    let ghost kv = keys_of(pm0);
    let mut j: usize = 0;
    while j < keys.len()
        invariant
            j <= keys@.len(),
            kv == keys@.map_values(|c: String| c@),
            json_obj_view(pm@) == add_synthetic(pm0, kv.take(j as int), rk@),
        decreases keys@.len() - j,
    {
        proof {
            assert(kv.take(j + 1).drop_last() =~= kv.take(j as int));
        }
        walk_exec(&mut pm, keys[j].as_str(), rk.as_str());
        j = j + 1;
    }
    assert(kv.take(keys@.len() as int) =~= kv);
    let ghost all = json_obj_view(pm@);
    let ghost bound = max_rank(all);
    proof {
        lemma_max_rank(all);
    }
    let cs = children_exec(&pm, rk.as_str(), rk.as_str(), Ghost(bound));
    let ghost csv = children(all, rk@, rk@, bound);
    proof {
        lemma_children_props(all, rk@, rk@, bound);
    }
    let child_budget = match max_depth {
        Some(d) => Some(if d >= 1 { d - 1 } else { 0 }),
        None => None,
    };
    let mut nodes: Vec<Json> = Vec::new();
    proof {
        assert(json_seq_view(nodes@) =~= Seq::<JsonV>::empty());
    }
    let mut k: usize = 0;
    while k < cs.len()
        invariant
            k <= cs@.len(),
            csv == children(all, rk@, rk@, bound),
            cs@.map_values(|c: String| c@) == csv,
            all == json_obj_view(pm@),
            bound == max_rank(all),
            bound >= 0,
            md == match max_depth {
                Some(d) => Some(d as nat),
                None => None,
            },
            skv == match sort_key {
                Some(q) => Some(q@),
                None => None,
            },
            match child_budget {
                Some(b) => budget_of(md, 1) == Some(b as int),
                None => budget_of(md, 1) is None,
            },
            forall|q: int| 0 <= q < csv.len() ==> {
                let c = #[trigger] csv[q];
                parent_key(c) == Some(rk@) && key_rank(c) <= bound
            },
            json_seq_view(nodes@) == make_children(all, rk@, 0, rk@, skv, md, bound, k as int),
        decreases cs@.len() - k,
    {
        proof {
            assert(cs@[k as int]@ == csv[k as int]);
        }
        let child = make_node_exec(&pm, cs[k].as_str(), Ghost(1), child_budget, rk.as_str(), sort_key, Ghost(md), Ghost(bound));
        proof {
            crate::json::lemma_json_seq_view_push(nodes@, child);
        }
        nodes.push(child);
        k = k + 1;
    }
    sort_nodes(nodes, sort_key)
}


proof fn lemma_insert_sorted_is_insert(s: Seq<JsonV>, x: JsonV, sk: Option<Seq<char>>) -> (i: int)
    ensures
        0 <= i <= s.len(),
        insert_sorted(s, x, sk) == s.insert(i, x),
    decreases s.len(),
{
    if s.len() == 0 {
        assert(s.insert(0, x) =~= seq![x]);
        0
    } else if node_order(s[0], x, sk) == Order::Greater {
        assert(s.insert(0, x) =~= seq![x] + s);
        0
    } else {
        let j = lemma_insert_sorted_is_insert(s.drop_first(), x, sk);
        assert(seq![s[0]] + s.drop_first().insert(j, x) =~= s.insert(j + 1, x));
        j + 1
    }
}

/// Sorting keeps every node: the sorted list holds the same nodes, as many
/// times each, as the list sorted.
pub proof fn law_sort_permutation(s: Seq<JsonV>, sk: Option<Seq<char>>)
    ensures
        isort(s, sk).to_multiset() == s.to_multiset(),
        isort(s, sk).len() == s.len(),
    decreases s.len(),
{
    if s.len() > 0 {
        let init = s.drop_last();
        law_sort_permutation(init, sk);
        let i = lemma_insert_sorted_is_insert(isort(init, sk), s.last(), sk);
        vstd::seq_lib::to_multiset_insert(isort(init, sk), i, s.last());
        assert(init.push(s.last()) =~= s);
        vstd::seq_lib::to_multiset_build(init, s.last());
        assert(isort(s, sk) == insert_sorted(isort(init, sk), s.last(), sk));
        assert(isort(s, sk).to_multiset() == isort(init, sk).to_multiset().insert(s.last()));
        assert(s.to_multiset() == init.to_multiset().insert(s.last()));
    } else {
        assert(s =~= Seq::<JsonV>::empty());
    }
}

/// Of two field values, at most one sorts after the other.
proof fn lemma_field_order_asym(a: Option<JsonV>, b: Option<JsonV>)
    ensures
        field_order(a, b) == Order::Greater ==> field_order(b, a) != Order::Greater,
{
    match (a, b) {
        (Some(x), Some(y)) => {
            let sx = match as_str_spec(x) {
                Some(s) => s,
                None => Seq::empty(),
            };
            let sy = match as_str_spec(y) {
                Some(s) => s,
                None => Seq::empty(),
            };
            crate::text::lemma_seq_lt_total(sx, sy);
        },
        _ => {},
    }
}

/// Of two nodes, at most one sorts after the other.
proof fn lemma_node_order_asym(a: JsonV, b: JsonV, sk: Option<Seq<char>>)
    ensures
        node_order(a, b, sk) == Order::Greater ==> node_order(b, a, sk) != Order::Greater,
{
    match sk {
        Some(k) => lemma_field_order_asym(json_get(a, k), json_get(b, k)),
        None => {
            let ta = match json_get(a, "title"@) {
                Some(JsonV::String(s)) => s,
                _ => Seq::empty(),
            };
            let tb = match json_get(b, "title"@) {
                Some(JsonV::String(s)) => s,
                _ => Seq::empty(),
            };
            crate::text::lemma_seq_lt_total(ta, tb);
        },
    }
}

/// No node of the list sorts after the one that follows it.
pub open spec fn sorted_nodes(r: Seq<JsonV>, sk: Option<Seq<char>>) -> bool {
    forall|i: int, j: int|
        0 <= i && j == i + 1 && j < r.len() ==> node_order(#[trigger] r[i], #[trigger] r[j], sk) != Order::Greater
}

proof fn lemma_insert_sorted_sorted(s: Seq<JsonV>, x: JsonV, sk: Option<Seq<char>>)
    requires
        sorted_nodes(s, sk),
    ensures
        sorted_nodes(insert_sorted(s, x, sk), sk),
        insert_sorted(s, x, sk).len() == s.len() + 1,
        insert_sorted(s, x, sk)[0] == x || (s.len() > 0 && insert_sorted(s, x, sk)[0] == s[0]),
    decreases s.len(),
{
    let r = insert_sorted(s, x, sk);
    if s.len() == 0 {
    } else if node_order(s[0], x, sk) == Order::Greater {
        lemma_node_order_asym(s[0], x, sk);
        assert(r == seq![x] + s);
        assert forall|i: int, j: int| 0 <= i && j == i + 1 && j < r.len() implies node_order(
            #[trigger] r[i],
            #[trigger] r[j],
            sk,
        ) != Order::Greater by {
            if i > 0 {
                assert(r[i] == s[i - 1] && r[j] == s[j - 1]);
            }
        }
    } else {
        let d = s.drop_first();
        assert forall|i: int, j: int| 0 <= i && j == i + 1 && j < d.len() implies node_order(
            #[trigger] d[i],
            #[trigger] d[j],
            sk,
        ) != Order::Greater by {
            assert(d[i] == s[i + 1] && d[j] == s[j + 1]);
        }
        lemma_insert_sorted_sorted(d, x, sk);
        let t = insert_sorted(d, x, sk);
        assert(r == seq![s[0]] + t);
        assert forall|i: int, j: int| 0 <= i && j == i + 1 && j < r.len() implies node_order(
            #[trigger] r[i],
            #[trigger] r[j],
            sk,
        ) != Order::Greater by {
            if i > 0 {
                assert(r[i] == t[i - 1] && r[j] == t[j - 1]);
            } else {
                assert(r[1] == t[0]);
                if t[0] != x {
                    assert(t[0] == d[0] && d[0] == s[1]);
                }
            }
        }
    }
}

proof fn lemma_isort_sorted(s: Seq<JsonV>, sk: Option<Seq<char>>)
    ensures
        sorted_nodes(isort(s, sk), sk),
    decreases s.len(),
{
    if s.len() > 0 {
        lemma_isort_sorted(s.drop_last(), sk);
        lemma_insert_sorted_sorted(isort(s.drop_last(), sk), s.last(), sk);
    }
}

/// Sorting by a field orders the nodes as their values of that field
/// compare: no node sorts after the one that follows it.  Strings go up in
/// code-point order, numbers go up by value, and nodes without the field come
/// after all those with it.
pub proof fn law_sorted_by_field(s: Seq<JsonV>, k: Seq<char>)
    ensures
        forall|i: int, j: int|
            0 <= i && j == i + 1 && j < isort(s, Some(k)).len() ==> field_order(
                json_get(#[trigger] isort(s, Some(k))[i], k),
                json_get(#[trigger] isort(s, Some(k))[j], k),
            ) != Order::Greater,
        forall|i: int, j: int|
            0 <= i && j == i + 1 && j < isort(s, Some(k)).len() ==> match (
                json_get(#[trigger] isort(s, Some(k))[i], k),
                json_get(#[trigger] isort(s, Some(k))[j], k),
            ) {
                (Some(JsonV::String(x)), Some(JsonV::String(y))) => !seq_lt(y, x),
                (Some(JsonV::Number(n)), Some(JsonV::Number(m))) => n.order <= m.order,
                (None, b) => b is None,
                _ => true,
            },
{
    let r = isort(s, Some(k));
    lemma_isort_sorted(s, Some(k));
    assert forall|i: int, j: int| 0 <= i && j == i + 1 && j < r.len() implies match (
        json_get(#[trigger] r[i], k),
        json_get(#[trigger] r[j], k),
    ) {
        (Some(JsonV::String(x)), Some(JsonV::String(y))) => !seq_lt(y, x),
        (Some(JsonV::Number(n)), Some(JsonV::Number(m))) => n.order <= m.order,
        (None, b) => b is None,
        _ => true,
    } by {
        assert(node_order(r[i], r[j], Some(k)) != Order::Greater);
        match (json_get(r[i], k), json_get(r[j], k)) {
            (Some(JsonV::String(x)), Some(JsonV::String(y))) => {
                crate::text::lemma_seq_lt_total(x, y);
            },
            _ => {},
        }
    }
}

/// The pages a template asks for, sorted by a field, come in that field's
/// order, and in the opposite order when reversed (so `sort="date",
/// reverse=true` lists the newest first).
pub proof fn law_pages_in_field_order(
    ps: Seq<JsonV>,
    section: Option<Seq<char>>,
    filters: Seq<(Seq<char>, JsonV)>,
    k: Seq<char>,
    reverse: bool,
)
    ensures
        forall|i: int, j: int|
            0 <= i && j == i + 1 && j < pages_spec(ps, section, filters, Some(k), reverse).len() ==> (if reverse {
                field_order(
                    json_get(#[trigger] pages_spec(ps, section, filters, Some(k), reverse)[j], k),
                    json_get(#[trigger] pages_spec(ps, section, filters, Some(k), reverse)[i], k),
                )
            } else {
                field_order(
                    json_get(pages_spec(ps, section, filters, Some(k), reverse)[i], k),
                    json_get(pages_spec(ps, section, filters, Some(k), reverse)[j], k),
                )
            }) != Order::Greater,
{
    let sel = select_pages(ps, section, filters);
    let q = isort(sel, Some(k));
    let r = pages_spec(ps, section, filters, Some(k), reverse);
    law_sorted_by_field(sel, k);
    assert forall|i: int, j: int| 0 <= i && j == i + 1 && j < r.len() implies (if reverse {
        field_order(json_get(#[trigger] r[j], k), json_get(#[trigger] r[i], k))
    } else {
        field_order(json_get(r[i], k), json_get(r[j], k))
    }) != Order::Greater by {
        if reverse {
            let a = q.len() - 1 - j;
            let b = a + 1;
            assert(r[j] == q[a] && r[i] == q[b]);
            assert(field_order(json_get(q[a], k), json_get(q[b], k)) != Order::Greater);
        } else {
            assert(field_order(json_get(q[i], k), json_get(q[j], k)) != Order::Greater);
        }
    }
}

} // verus!
