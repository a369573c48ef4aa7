//! A starter theme from a design system: one reference token per design-system
//! token, grouped by top-level group, with `-on-light` / `-on-dark` pairs
//! (and `.on.light` / `.on.dark` groups) combined into `light-dark()` tokens.
use vstd::prelude::*;
use crate::css::flat_get;
use crate::json::{json_obj_view, json_view, lemma_json_obj_view_len, member, Json, JsonV};
use crate::merge::{insert_member, obj_insert};
use crate::jsonld::insert_all;
use crate::text::{
    chars_of, ends_with, push_char, seq_lt, str_ends_with, str_eq, str_lt, str_starts_with, string_of_range,
    strip_prefix, strip_suffix,
};
use crate::theme::{first_group, first_group_spec};
use crate::tokens::{flat_views, FlatToken, FlatV};

verus! {

/// `s` without prefix `p`, or `s` when it does not start with it.
pub open spec fn strip_or_keep(s: Seq<char>, p: Seq<char>) -> Seq<char> {
    match strip_prefix(s, p) {
        Some(r) => r,
        None => s,
    }
}

/// A light/dark pair: the base path and the paths of its light and dark tokens.
pub type PairV = (Seq<char>, Seq<char>, Seq<char>);

/// The pairs found so far and the bases already paired, after looking at one
/// more path: `x-on-light` pairs with `x-on-dark`, `x.on.light` with
/// `x.on.dark`, when the dark token exists and `x` is not paired yet.
pub open spec fn pair_step(ts: Seq<FlatV>, st: (Seq<PairV>, Set<Seq<char>>), key: Seq<char>) -> (Seq<PairV>, Set<Seq<char>>) {
    let st1 = match strip_suffix(key, "-on-light"@) {
        Some(base) => {
            let dark = base + "-on-dark"@;
            if flat_get(ts, dark) is Some && !st.1.contains(base) {
                (st.0.push((base, key, dark)), st.1.insert(base))
            } else {
                st
            }
        },
        None => st,
    };
    match strip_suffix(key, ".on.light"@) {
        Some(base) => {
            let dark = base + ".on.dark"@;
            if flat_get(ts, dark) is Some && !st1.1.contains(base) {
                (st1.0.push((base, key, dark)), st1.1.insert(base))
            } else {
                st1
            }
        },
        None => st1,
    }
}

/// The light/dark pairs among the paths of `keys` (in order), and their bases.
pub open spec fn detect_pairs(ts: Seq<FlatV>, keys: Seq<FlatV>) -> (Seq<PairV>, Set<Seq<char>>)
    decreases keys.len(),
{
    if keys.len() == 0 {
        (Seq::empty(), Set::empty())
    } else {
        pair_step(ts, detect_pairs(ts, keys.drop_last()), keys.last().path)
    }
}

/// A reference token: `$value` and, when known, `$type`.
pub open spec fn token_entry(value: Seq<char>, tt: Option<Seq<char>>) -> JsonV {
    let m = obj_insert(Seq::empty(), "$value"@, JsonV::String(value));
    JsonV::Object(
        match tt {
            Some(t) => obj_insert(m, "$type"@, JsonV::String(t)),
            None => m,
        },
    )
}

/// The `light-dark()` aggregate of a pair.
pub open spec fn aggregate_entry(light_ref: Seq<char>, dark_ref: Seq<char>, tt: Option<Seq<char>>) -> JsonV {
    let m = obj_insert(
        Seq::empty(),
        "$value"@,
        JsonV::String("light-dark("@ + light_ref + ", "@ + dark_ref + ")"@),
    );
    let m = obj_insert(m, "$description"@, JsonV::String("Auto-generated light-dark aggregate"@));
    JsonV::Object(
        match tt {
            Some(t) => obj_insert(m, "$type"@, JsonV::String(t)),
            None => m,
        },
    )
}

/// Groups of members kept in group-name order; an entry goes into its group
/// (made when missing), replacing a member with the same name.
pub open spec fn group_insert(
    gs: Seq<(Seq<char>, Seq<(Seq<char>, JsonV)>)>,
    g: Seq<char>,
    k: Seq<char>,
    v: JsonV,
) -> Seq<(Seq<char>, Seq<(Seq<char>, JsonV)>)>
    decreases gs.len(),
{
    if gs.len() == 0 {
        seq![(g, obj_insert(Seq::empty(), k, v))]
    } else if seq_lt(gs[0].0, g) {
        seq![gs[0]] + group_insert(gs.drop_first(), g, k, v)
    } else if gs[0].0 == g {
        seq![(g, obj_insert(gs[0].1, k, v))] + gs.drop_first()
    } else {
        seq![(g, obj_insert(Seq::empty(), k, v))] + gs
    }
}

/// `{path}`.
pub open spec fn braced(p: Seq<char>) -> Seq<char> {
    seq!['{'] + p + seq!['}']
}

/// The groups after adding a pair's light and dark references and its aggregate.
pub open spec fn add_pair(ts: Seq<FlatV>, gs: Seq<(Seq<char>, Seq<(Seq<char>, JsonV)>)>, pr: PairV) -> Seq<(Seq<char>, Seq<(Seq<char>, JsonV)>)> {
    let (base, light, dark) = pr;
    let g = first_group_spec(light).0;
    let gd = g + seq!['.'];
    let tt = match flat_get(ts, light) {
        Some(t) => t.token_type,
        None => None,
    };
    let gs1 = group_insert(gs, g, strip_or_keep(light, gd), token_entry(braced(light), tt));
    let gs2 = group_insert(gs1, g, strip_or_keep(dark, gd), token_entry(braced(dark), tt));
    group_insert(gs2, g, strip_or_keep(base, gd), aggregate_entry(braced(light), braced(dark), tt))
}

pub open spec fn add_pairs(ts: Seq<FlatV>, pairs: Seq<PairV>) -> Seq<(Seq<char>, Seq<(Seq<char>, JsonV)>)>
    decreases pairs.len(),
{
    if pairs.len() == 0 {
        Seq::empty()
    } else {
        add_pair(ts, add_pairs(ts, pairs.drop_last()), pairs.last())
    }
}

/// Paths that belong to a pair by their suffix.
pub open spec fn pair_member_path(p: Seq<char>) -> bool {
    ends_with(p, "-on-light"@) || ends_with(p, "-on-dark"@) || ends_with(p, ".on.light"@) || ends_with(p, ".on.dark"@)
}

/// The groups after adding a reference for every token that is no pair's base or member.
pub open spec fn add_singles(
    gs: Seq<(Seq<char>, Seq<(Seq<char>, JsonV)>)>,
    ts: Seq<FlatV>,
    seen: Set<Seq<char>>,
) -> Seq<(Seq<char>, Seq<(Seq<char>, JsonV)>)>
    decreases ts.len(),
{
    if ts.len() == 0 {
        gs
    } else {
        let before = add_singles(gs, ts.drop_last(), seen);
        let t = ts.last();
        if seen.contains(t.path) || pair_member_path(t.path) {
            before
        } else {
            let g = first_group_spec(t.path).0;
            group_insert(before, g, strip_or_keep(t.path, g + seq!['.']), token_entry(braced(t.path), t.token_type))
        }
    }
}

/// A group's object: `$type` of its first member when that has one, then its members.
pub open spec fn group_object(es: Seq<(Seq<char>, JsonV)>) -> JsonV {
    let head = if es.len() > 0 {
        match es[0].1 {
            JsonV::Object(m) => match member(m, "$type"@) {
                Some(t) => seq![("$type"@, t)],
                None => Seq::empty(),
            },
            _ => Seq::empty(),
        }
    } else {
        Seq::empty()
    };
    JsonV::Object(insert_all(head, es))
}

pub open spec fn group_objects(gs: Seq<(Seq<char>, Seq<(Seq<char>, JsonV)>)>) -> Seq<(Seq<char>, JsonV)>
    decreases gs.len(),
{
    if gs.len() == 0 {
        Seq::empty()
    } else {
        group_objects(gs.drop_last()).push((gs.last().0, group_object(gs.last().1)))
    }
}

/// The theme object for a design system's (path-ordered, resolved) tokens.
pub open spec fn theme_spec(ts: Seq<FlatV>) -> JsonV {
    let (pairs, seen) = detect_pairs(ts, ts);
    let gs = add_singles(add_pairs(ts, pairs), ts, seen);
    JsonV::Object(insert_all(Seq::empty(), group_objects(gs)))
}

// ---------------------------------------------------------------------------
// Executable
// ---------------------------------------------------------------------------

fn strip_suffix_exec(s: &str, p: &str) -> (r: Option<String>)
    ensures
        match r {
            Some(x) => strip_suffix(s@, p@) == Some(x@),
            None => strip_suffix(s@, p@) is None,
        },
{
    if str_ends_with(s, p) {
        let v = chars_of(s);
        let pv = chars_of(p);
        Some(string_of_range(&v, 0, v.len() - pv.len()))
    } else {
        None
    }
}

fn strip_or_keep_exec(s: &str, p: &str) -> (r: String)
    ensures
        r@ == strip_or_keep(s@, p@),
{
    if str_starts_with(s, p) {
        let v = chars_of(s);
        let pv = chars_of(p);
        string_of_range(&v, pv.len(), v.len())
    } else {
        s.to_owned()
    }
}

fn has_path(ts: &Vec<FlatToken>, p: &str) -> (b: bool)
    ensures
        b == (flat_get(flat_views(ts@), p@) is Some),
{
    let ghost fv = flat_views(ts@);
    let mut i: usize = 0;
    while i < ts.len()
        invariant
            i <= ts@.len(),
            fv == flat_views(ts@),
            forall|j: int| 0 <= j < i ==> (#[trigger] fv[j]).path != p@,
        decreases ts@.len() - i,
    {
        if str_eq(ts[i].path.as_str(), p) {
            proof {
                lemma_flat_get_found(fv, p@, i as int);
            }
            return true;
        }
        i = i + 1;
    }
    proof {
        lemma_flat_get_found(fv, p@, i as int);
    }
    false
}

proof fn lemma_flat_get_found(ts: Seq<FlatV>, p: Seq<char>, i: int)
    requires
        0 <= i <= ts.len(),
        forall|j: int| 0 <= j < i ==> (#[trigger] ts[j]).path != p,
    ensures
        i < ts.len() && ts[i].path == p ==> flat_get(ts, p) == Some(ts[i]),
        i == ts.len() ==> flat_get(ts, p) is None,
    decreases i,
{
    if i > 0 {
        assert(ts[0].path != p);
        assert forall|j: int| 0 <= j < i - 1 implies (#[trigger] ts.drop_first()[j]).path != p by {
            assert(ts.drop_first()[j] == ts[j + 1]);
        }
        lemma_flat_get_found(ts.drop_first(), p, i - 1);
    }
}

fn contains_str(v: &Vec<String>, s: &str) -> (b: bool)
    ensures
        b == v@.map_values(|x: String| x@).contains(s@),
{
    let ghost vv = v@.map_values(|x: String| x@);
    let mut i: usize = 0;
    while i < v.len()
        invariant
            i <= v@.len(),
            vv == v@.map_values(|x: String| x@),
            forall|j: int| 0 <= j < i ==> vv[j] != s@,
        decreases v@.len() - i,
    {
        if str_eq(v[i].as_str(), s) {
            assert(vv[i as int] == s@);
            return true;
        }
        i = i + 1;
    }
    proof {
        if vv.contains(s@) {
            let j = choose|j: int| 0 <= j < vv.len() && vv[j] == s@;
            assert(vv[j] != s@);
        }
    }
    false
}

/// The views of the detected pairs.
pub open spec fn pair_views(v: Seq<(String, String, String)>) -> Seq<PairV> {
    v.map_values(|p: (String, String, String)| (p.0@, p.1@, p.2@))
}

/// Add a pair for `key` under one convention when it has the light suffix.
fn try_pair(
    ts: &Vec<FlatToken>,
    key: &str,
    light_suffix: &str,
    dark_suffix: &str,
    pairs: &mut Vec<(String, String, String)>,
    seen: &mut Vec<String>,
)
    ensures
        ({
            let st = (pair_views(old(pairs)@), old(seen)@.map_values(|x: String| x@).to_set());
            let r = match strip_suffix(key@, light_suffix@) {
                Some(base) => {
                    let dark = base + dark_suffix@;
                    if flat_get(flat_views(ts@), dark) is Some && !st.1.contains(base) {
                        (st.0.push((base, key@, dark)), st.1.insert(base))
                    } else {
                        st
                    }
                },
                None => st,
            };
            (pair_views(final(pairs)@), final(seen)@.map_values(|x: String| x@).to_set()) == r
        }),
{
    match strip_suffix_exec(key, light_suffix) {
        Some(base) => {
            let mut dark = base.clone();
            dark.append(dark_suffix);
            if has_path(ts, dark.as_str()) && !contains_str(seen, base.as_str()) {
                let ghost sv = seen@.map_values(|x: String| x@);
                let ghost pv = pair_views(pairs@);
                seen.push(base.clone());
                pairs.push((base, key.to_owned(), dark));
                proof {
                    assert(seen@.map_values(|x: String| x@) =~= sv.push(base@));
                    sv.lemma_push_to_set_commute(base@);
                    assert(pair_views(pairs@) =~= pv.push((base@, key@, dark@)));
                }
            }
        },
        None => {},
    }
}

/// Find the light/dark pairs among the token paths.
pub fn find_pairs(ts: &Vec<FlatToken>) -> (r: (Vec<(String, String, String)>, Vec<String>))
    ensures
        (pair_views(r.0@), r.1@.map_values(|x: String| x@).to_set()) == detect_pairs(flat_views(ts@), flat_views(ts@)),
{
    let ghost fv = flat_views(ts@);
    let mut pairs: Vec<(String, String, String)> = Vec::new();
    let mut seen: Vec<String> = Vec::new();
    proof {
        assert(pair_views(pairs@) =~= Seq::<PairV>::empty());
        assert(seen@.map_values(|x: String| x@).to_set() =~= Set::<Seq<char>>::empty());
    }
    let mut i: usize = 0;
    while i < ts.len()
        invariant
            i <= ts@.len(),
            fv == flat_views(ts@),
            (pair_views(pairs@), seen@.map_values(|x: String| x@).to_set()) == detect_pairs(fv, fv.take(i as int)),
        decreases ts@.len() - i,
    {
        proof {
            assert(fv.take(i + 1).drop_last() =~= fv.take(i as int));
        }
        let key = ts[i].path.as_str();
        try_pair(ts, key, "-on-light", "-on-dark", &mut pairs, &mut seen);
        try_pair(ts, key, ".on.light", ".on.dark", &mut pairs, &mut seen);
        i = i + 1;
    }
    assert(fv.take(ts@.len() as int) =~= fv);
    (pairs, seen)
}

/// The views of groups of members.
pub open spec fn groups_view(gs: Seq<(String, Vec<(String, Json)>)>) -> Seq<(Seq<char>, Seq<(Seq<char>, JsonV)>)> {
    gs.map_values(|g: (String, Vec<(String, Json)>)| (g.0@, json_obj_view(g.1@)))
}

proof fn lemma_group_insert_skip(
    gs: Seq<(Seq<char>, Seq<(Seq<char>, JsonV)>)>,
    g: Seq<char>,
    k: Seq<char>,
    v: JsonV,
    i: int,
)
    requires
        0 <= i <= gs.len(),
        forall|j: int| 0 <= j < i ==> seq_lt(#[trigger] gs[j].0, g),
    ensures
        group_insert(gs, g, k, v) == gs.take(i) + group_insert(gs.skip(i), g, k, v),
    decreases i,
{
    if i > 0 {
        assert forall|j: int| 0 <= j < i - 1 implies seq_lt(#[trigger] gs.drop_first()[j].0, g) by {
            assert(gs.drop_first()[j] == gs[j + 1]);
        }
        lemma_group_insert_skip(gs.drop_first(), g, k, v, i - 1);
        assert(gs.drop_first().skip(i - 1) =~= gs.skip(i));
        assert(seq![gs[0]] + gs.drop_first().take(i - 1) =~= gs.take(i));
        assert(seq_lt(gs[0].0, g));
    } else {
        assert(gs.skip(0) =~= gs);
        assert(gs.take(0) =~= Seq::<(Seq<char>, Seq<(Seq<char>, JsonV)>)>::empty());
    }
}

/// Put an entry into its group.
fn insert_grouped(gs: &mut Vec<(String, Vec<(String, Json)>)>, g: String, k: String, v: Json)
    ensures
        groups_view(final(gs)@) == group_insert(groups_view(old(gs)@), g@, k@, v@),
{
    let ghost m = groups_view(gs@);
    let mut i: usize = 0;
    while i < gs.len() && str_lt(gs[i].0.as_str(), g.as_str())
        invariant
            i <= gs@.len(),
            m == groups_view(gs@),
            forall|j: int| 0 <= j < i ==> seq_lt(#[trigger] m[j].0, g@),
        decreases gs@.len() - i,
    {
        i = i + 1;
    }
    proof {
        lemma_group_insert_skip(m, g@, k@, v@, i as int);
    }
    let ghost gv = g@;
    let ghost kv = k@;
    let ghost vv = v@;
    if i < gs.len() && str_eq(gs[i].0.as_str(), g.as_str()) {
        let (name, mut members) = gs.remove(i);
        let ghost old_members = json_obj_view(members@);
        insert_member(&mut members, k, v);
        gs.insert(i, (name, members));
        proof {
            assert(m.skip(i as int)[0] == m[i as int]);
            assert(m.skip(i as int).drop_first() =~= m.skip(i + 1));
            assert(groups_view(gs@) =~= m.take(i as int) + (seq![(gv, obj_insert(m[i as int].1, kv, vv))] + m.skip(i + 1)));
        }
    } else {
        let mut members: Vec<(String, Json)> = Vec::new();
        proof {
            assert(json_obj_view(members@) =~= Seq::<(Seq<char>, JsonV)>::empty());
        }
        insert_member(&mut members, k, v);
        gs.insert(i, (g, members));
        proof {
            if i < m.len() {
                assert(m.skip(i as int)[0] == m[i as int]);
            }
            assert(groups_view(gs@) =~= m.take(i as int) + (seq![(gv, obj_insert(Seq::empty(), kv, vv))] + m.skip(i as int)));
        }
    }
}

fn token_entry_json(value: String, tt: Option<String>) -> (r: Json)
    ensures
        r@ == token_entry(value@, match tt {
            Some(t) => Some(t@),
            None => None,
        }),
{
    let mut m: Vec<(String, Json)> = Vec::new();
    proof {
        assert(json_obj_view(m@) =~= Seq::<(Seq<char>, JsonV)>::empty());
    }
    insert_member(&mut m, "$value".to_owned(), Json::String(value));
    match tt {
        Some(t) => insert_member(&mut m, "$type".to_owned(), Json::String(t)),
        None => {},
    }
    Json::Object(m)
}

fn aggregate_json(light_ref: &str, dark_ref: &str, tt: Option<String>) -> (r: Json)
    ensures
        r@ == aggregate_entry(light_ref@, dark_ref@, match tt {
            Some(t) => Some(t@),
            None => None,
        }),
{
    let mut agg = "light-dark(".to_owned();
    agg.append(light_ref);
    agg.append(", ");
    agg.append(dark_ref);
    agg.append(")");
    let mut m: Vec<(String, Json)> = Vec::new();
    proof {
        assert(json_obj_view(m@) =~= Seq::<(Seq<char>, JsonV)>::empty());
    }
    insert_member(&mut m, "$value".to_owned(), Json::String(agg));
    insert_member(&mut m, "$description".to_owned(), Json::String("Auto-generated light-dark aggregate".to_owned()));
    match tt {
        Some(t) => insert_member(&mut m, "$type".to_owned(), Json::String(t)),
        None => {},
    }
    Json::Object(m)
}

fn braced_exec(p: &str) -> (r: String)
    ensures
        r@ == braced(p@),
{
    let mut r = String::new();
    push_char(&mut r, '{');
    r.append(p);
    push_char(&mut r, '}');
    r
}

fn token_type_of(ts: &Vec<FlatToken>, path: &str) -> (r: Option<String>)
    ensures
        (match r {
            Some(t) => Some(t@),
            None => None,
        }) == (match flat_get(flat_views(ts@), path@) {
            Some(t) => t.token_type,
            None => None,
        }),
{
    let ghost fv = flat_views(ts@);
    let mut i: usize = 0;
    while i < ts.len()
        invariant
            i <= ts@.len(),
            fv == flat_views(ts@),
            forall|j: int| 0 <= j < i ==> (#[trigger] fv[j]).path != path@,
        decreases ts@.len() - i,
    {
        if str_eq(ts[i].path.as_str(), path) {
            proof {
                lemma_flat_get_found(fv, path@, i as int);
            }
            return crate::tokens::clone_opt_str(&ts[i].token_type);
        }
        i = i + 1;
    }
    proof {
        lemma_flat_get_found(fv, path@, i as int);
    }
    None
}

fn push_pair(ts: &Vec<FlatToken>, gs: &mut Vec<(String, Vec<(String, Json)>)>, pr: &(String, String, String))
    ensures
        groups_view(final(gs)@) == add_pair(flat_views(ts@), groups_view(old(gs)@), (pr.0@, pr.1@, pr.2@)),
{
    let (base, light, dark) = (&pr.0, &pr.1, &pr.2);
    let (g, _) = first_group(light.as_str());
    let mut gd = g.clone();
    push_char(&mut gd, '.');
    assert(gd@ =~= g@ + seq!['.']);
    let tt = token_type_of(ts, light.as_str());
    let light_ref = braced_exec(light.as_str());
    let dark_ref = braced_exec(dark.as_str());
    let e1 = token_entry_json(light_ref.clone(), crate::tokens::clone_opt_str(&tt));
    insert_grouped(gs, g.clone(), strip_or_keep_exec(light.as_str(), gd.as_str()), e1);
    let e2 = token_entry_json(dark_ref.clone(), crate::tokens::clone_opt_str(&tt));
    insert_grouped(gs, g.clone(), strip_or_keep_exec(dark.as_str(), gd.as_str()), e2);
    let e3 = aggregate_json(light_ref.as_str(), dark_ref.as_str(), tt);
    insert_grouped(gs, g, strip_or_keep_exec(base.as_str(), gd.as_str()), e3);
}

/// Generate the theme token object for a design system's flattened, resolved
/// tokens (in path order): a reference to every token, grouped by top-level
/// group, light/dark pairs with an added `light-dark()` aggregate, and each
/// group typed by its first member.
pub fn generate_theme_tokens(tokens: &Vec<FlatToken>) -> (r: Json)
    ensures
        r@ == theme_spec(flat_views(tokens@)),
{
    let ghost fv = flat_views(tokens@);
    let (pairs, seen) = find_pairs(tokens);
    let ghost seen_set = seen@.map_values(|x: String| x@).to_set();
    let mut gs: Vec<(String, Vec<(String, Json)>)> = Vec::new();
    proof {
        assert(groups_view(gs@) =~= Seq::<(Seq<char>, Seq<(Seq<char>, JsonV)>)>::empty());
    }
    let ghost pv = pair_views(pairs@);
    let mut i: usize = 0;
    while i < pairs.len()
        invariant
            i <= pairs@.len(),
            fv == flat_views(tokens@),
            pv == pair_views(pairs@),
            groups_view(gs@) == add_pairs(fv, pv.take(i as int)),
        decreases pairs@.len() - i,
    {
        proof {
            assert(pv.take(i + 1).drop_last() =~= pv.take(i as int));
        }
        push_pair(tokens, &mut gs, &pairs[i]);
        i = i + 1;
    }
    assert(pv.take(pairs@.len() as int) =~= pv);
    let ghost g0 = groups_view(gs@);
    let mut j: usize = 0;
    while j < tokens.len()
        invariant
            j <= tokens@.len(),
            fv == flat_views(tokens@),
            seen_set == seen@.map_values(|x: String| x@).to_set(),
            groups_view(gs@) == add_singles(g0, fv.take(j as int), seen_set),
        decreases tokens@.len() - j,
    {
        proof {
            assert(fv.take(j + 1).drop_last() =~= fv.take(j as int));
            reveal_strlit("-on-light");
            reveal_strlit("-on-dark");
            reveal_strlit(".on.light");
            reveal_strlit(".on.dark");
            assert(seen@.map_values(|x: String| x@).to_set().contains(tokens@[j as int].path@)
                == seen@.map_values(|x: String| x@).contains(tokens@[j as int].path@));
        }
        let t = &tokens[j];
        let p = t.path.as_str();
        if contains_str(&seen, p) || str_ends_with(p, "-on-light") || str_ends_with(p, "-on-dark")
            || str_ends_with(p, ".on.light") || str_ends_with(p, ".on.dark") {
        } else {
            let (g, _) = first_group(p);
            let mut gd = g.clone();
            push_char(&mut gd, '.');
            assert(gd@ =~= g@ + seq!['.']);
            let local = strip_or_keep_exec(p, gd.as_str());
            let e = token_entry_json(braced_exec(p), crate::tokens::clone_opt_str(&t.token_type));
            insert_grouped(&mut gs, g, local, e);
        }
        j = j + 1;
    }
    assert(fv.take(tokens@.len() as int) =~= fv);
    let ghost gall = groups_view(gs@);
    let mut theme: Vec<(String, Json)> = Vec::new();
    proof {
        assert(json_obj_view(theme@) =~= Seq::<(Seq<char>, JsonV)>::empty());
    }
    let mut k: usize = 0;
    while k < gs.len()
        invariant
            k <= gs@.len(),
            gall == groups_view(gs@),
            json_obj_view(theme@) == insert_all(Seq::empty(), group_objects(gall.take(k as int))),
        decreases gs@.len() - k,
    {
        proof {
            assert(gall.take(k + 1).drop_last() =~= gall.take(k as int));
            assert(group_objects(gall.take(k + 1)).drop_last() =~= group_objects(gall.take(k as int)));
        }
        let obj = group_object_json(&gs[k].1);
        insert_member(&mut theme, gs[k].0.clone(), obj);
        k = k + 1;
    }
    assert(gall.take(gs@.len() as int) =~= gall);
    Json::Object(theme)
}

fn group_object_json(es: &Vec<(String, Json)>) -> (r: Json)
    ensures
        r@ == group_object(json_obj_view(es@)),
{
    let ghost ev = json_obj_view(es@);
    proof {
        lemma_json_obj_view_len(es@);
        reveal_strlit("$type");
    }
    let mut obj: Vec<(String, Json)> = Vec::new();
    if es.len() > 0 {
        match &es[0].1 {
            Json::Object(m) => match crate::json::get_member(m, "$type") {
                Some(t) => {
                    let e = ("$type".to_owned(), t.deep_clone());
                    proof {
                        crate::json::lemma_json_obj_view_push(obj@, e);
                        assert(json_obj_view(obj@) =~= Seq::<(Seq<char>, JsonV)>::empty());
                    }
                    obj.push(e);
                },
                None => {},
            },
            _ => {},
        }
    }
    proof {
        if es@.len() == 0 || !(es@[0].1 is Object) {
            assert(json_obj_view(obj@) =~= Seq::<(Seq<char>, JsonV)>::empty());
        }
    }
    let ghost head = json_obj_view(obj@);
    let mut i: usize = 0;
    while i < es.len()
        invariant
            i <= es@.len(),
            ev == json_obj_view(es@),
            ev.len() == es@.len(),
            forall|q: int| 0 <= q < es@.len() ==> #[trigger] ev[q] == (es@[q].0@, json_view(es@[q].1)),
            json_obj_view(obj@) == insert_all(head, ev.take(i as int)),
        decreases es@.len() - i,
    {
        proof {
            assert(ev.take(i + 1).drop_last() =~= ev.take(i as int));
        }
        insert_member(&mut obj, es[i].0.clone(), es[i].1.deep_clone());
        i = i + 1;
    }
    assert(ev.take(es@.len() as int) =~= ev);
    Json::Object(obj)
}

} // verus!
