//! CSS custom properties from flattened design tokens.
//!
//! Each token becomes a `--name: value;` declaration (composite typography
//! tokens one per member).  With a dark token set, tokens whose values differ
//! get `-on-light` / `-on-dark` primitives combined with `light-dark()`.
use vstd::prelude::*;
use crate::json::{as_str_spec, clone_members, get_member, get_str_member, json_obj_view, json_seq_view, json_text, json_to_string, json_view, lemma_json_obj_view_len, lemma_json_seq_view_len, member, number_inline, number_inline_text, str_member, Json, JsonNumber, JsonV};
use crate::text::{contains_seq, str_contains, str_eq};
use crate::theme::{css_var_spec, path_to_var_name_with_prefix, strip_root_marker};
use crate::tokens::{flat_views, opt_strref, FlatToken, FlatV, TokenValue, TokenValueV};

verus! {

/// `o`, else `d`.
pub open spec fn str_or(o: Option<Seq<char>>, d: Seq<char>) -> Seq<char> {
    match o {
        Some(s) => s,
        None => d,
    }
}

/// The number member `key` of an object, if it is there and is a number.
pub open spec fn number_member(m: Seq<(Seq<char>, JsonV)>, key: Seq<char>) -> Option<JsonNumber> {
    match member(m, key) {
        Some(JsonV::Number(n)) => Some(n),
        _ => None,
    }
}

/// A dimension as CSS: an object `{value, unit}` (unit `px` by default) or a
/// bare number of pixels; zero and anything else is `0`.
pub open spec fn dimension_spec(val: Option<JsonV>) -> Seq<char> {
    match val {
        Some(JsonV::Object(m)) => match number_member(m, "value"@) {
            Some(n) => if n.is_zero {
                "0"@
            } else if n.is_whole {
                n.trunc@ + str_or(str_member(m, "unit"@), "px"@)
            } else {
                n.display@ + str_or(str_member(m, "unit"@), "px"@)
            },
            None => "0"@,
        },
        Some(JsonV::Number(n)) => if n.is_zero {
            "0"@
        } else {
            n.display@ + "px"@
        },
        _ => "0"@,
    }
}

/// A shadow object as the CSS shorthand `x y blur spread color`.
pub open spec fn shadow_spec(m: Seq<(Seq<char>, JsonV)>) -> Seq<char> {
    dimension_spec(member(m, "offsetX"@)) + " "@ + dimension_spec(member(m, "offsetY"@)) + " "@
        + dimension_spec(member(m, "blur"@)) + " "@ + dimension_spec(member(m, "spread"@)) + " "@
        + str_or(str_member(m, "color"@), "transparent"@)
}

/// A border object as the CSS shorthand `width style color`.
pub open spec fn border_spec(m: Seq<(Seq<char>, JsonV)>) -> Seq<char> {
    dimension_spec(member(m, "width"@)) + " "@ + str_or(str_member(m, "style"@), "solid"@) + " "@
        + str_or(str_member(m, "color"@), "currentColor"@)
}

/// The parts joined with `sep` between them.
pub open spec fn join(parts: Seq<Seq<char>>, sep: Seq<char>) -> Seq<char>
    decreases parts.len(),
{
    if parts.len() == 0 {
        Seq::empty()
    } else if parts.len() == 1 {
        parts[0]
    } else {
        join(parts.drop_last(), sep) + sep + parts.last()
    }
}

/// The string of each value (empty for a non-string).
pub open spec fn string_parts(a: Seq<JsonV>) -> Seq<Seq<char>> {
    a.map_values(|v: JsonV| str_or(as_str_spec(v), Seq::empty()))
}

/// The shortest form of each number among the values, in order.
pub open spec fn number_parts(a: Seq<JsonV>) -> Seq<Seq<char>>
    decreases a.len(),
{
    if a.len() == 0 {
        Seq::empty()
    } else {
        number_parts(a.drop_last()) + match a.last() {
            JsonV::Number(n) => seq![n.display@],
            _ => Seq::empty(),
        }
    }
}

/// The shadow shorthand of each object among the values, in order.
pub open spec fn shadow_parts(a: Seq<JsonV>) -> Seq<Seq<char>>
    decreases a.len(),
{
    if a.len() == 0 {
        Seq::empty()
    } else {
        shadow_parts(a.drop_last()) + match a.last() {
            JsonV::Object(m) => seq![shadow_spec(m)],
            _ => Seq::empty(),
        }
    }
}

/// The CSS value of a token of the given type.
pub open spec fn token_css_spec(v: TokenValueV, ty: Option<Seq<char>>) -> Seq<char> {
    match v {
        TokenValueV::String(s) => s,
        TokenValueV::Number(n) => number_inline(n),
        TokenValueV::Bool(b) => if b { "true"@ } else { "false"@ },
        TokenValueV::Object(m) => if ty == Some("dimension"@) {
            dimension_spec(Some(JsonV::Object(m)))
        } else if ty == Some("duration"@) {
            str_or(
                match number_member(m, "value"@) {
                    Some(n) => Some(n.display@),
                    None => None,
                },
                "0"@,
            ) + str_or(str_member(m, "unit"@), "ms"@)
        } else if ty == Some("shadow"@) {
            shadow_spec(m)
        } else if ty == Some("border"@) {
            border_spec(m)
        } else {
            json_text(JsonV::Object(m))
        },
        TokenValueV::Array(a) => if ty == Some("fontFamily"@) {
            join(string_parts(a), ", "@)
        } else if ty == Some("cubicBezier"@) {
            "cubic-bezier("@ + join(number_parts(a), ", "@) + ")"@
        } else {
            json_text(JsonV::Array(a))
        },
    }
}

/// The CSS value of a member of a composite token.
pub open spec fn json_css_spec(v: JsonV) -> Seq<char>
    decreases v,
{
    match v {
        JsonV::String(s) => s,
        JsonV::Number(n) => match n.int_text {
            Some(i) => i@,
            None => n.display@,
        },
        JsonV::Object(m) => dimension_spec(Some(JsonV::Object(m))),
        JsonV::Array(a) => join(json_css_seq(a), ", "@),
        JsonV::Bool(b) => if b { "true"@ } else { "false"@ },
        JsonV::Null => "none"@,
    }
}

pub open spec fn json_css_seq(a: Seq<JsonV>) -> Seq<Seq<char>>
    decreases a,
{
    if a.len() == 0 {
        Seq::empty()
    } else {
        json_css_seq(a.subrange(0, a.len() - 1)).push(json_css_spec(a[a.len() - 1]))
    }
}

/// One declaration line.
pub open spec fn css_line(name: Seq<char>, value: Seq<char>) -> Seq<char> {
    "  "@ + name + ": "@ + value + ";\n"@
}

/// The custom property name of a token path.
pub open spec fn var_name(path: Seq<char>, prefix: Option<Seq<char>>) -> Seq<char> {
    css_var_spec(strip_root_marker(path), prefix)
}

/// One line per member of a composite token, named `path.member`.
pub open spec fn composite_lines(path: Seq<char>, m: Seq<(Seq<char>, JsonV)>, prefix: Option<Seq<char>>) -> Seq<char>
    decreases m.len(),
{
    if m.len() == 0 {
        Seq::empty()
    } else {
        composite_lines(path, m.drop_last(), prefix) + css_line(
            var_name(path + seq!['.'] + m.last().0, prefix),
            json_css_spec(m.last().1),
        )
    }
}

/// The declarations of one token: typography objects one per member, shadow
/// and border objects (and shadow lists) as shorthands, anything else its value.
pub open spec fn token_lines(path: Seq<char>, v: TokenValueV, ty: Option<Seq<char>>, prefix: Option<Seq<char>>) -> Seq<char> {
    let name = var_name(path, prefix);
    match v {
        TokenValueV::Object(m) => if ty == Some("typography"@) {
            composite_lines(path, m, prefix)
        } else if ty == Some("shadow"@) {
            css_line(name, shadow_spec(m))
        } else if ty == Some("border"@) {
            css_line(name, border_spec(m))
        } else {
            css_line(name, token_css_spec(v, ty))
        },
        TokenValueV::Array(a) => if ty == Some("shadow"@) {
            css_line(name, join(shadow_parts(a), ", "@))
        } else {
            css_line(name, token_css_spec(v, ty))
        },
        _ => css_line(name, token_css_spec(v, ty)),
    }
}

/// Whether a token path goes in the critical (or else the main) stylesheet.
pub open spec fn keep_path(path: Seq<char>, critical_only: bool) -> bool {
    if critical_only {
        contains_seq(path, "-critical"@)
    } else {
        !contains_seq(path, "-critical"@)
    }
}

/// The declarations of the kept tokens, in order.
pub open spec fn plain_css(ts: Seq<FlatV>, critical_only: bool, prefix: Option<Seq<char>>) -> Seq<char>
    decreases ts.len(),
{
    if ts.len() == 0 {
        Seq::empty()
    } else {
        plain_css(ts.drop_last(), critical_only, prefix) + if keep_path(ts.last().path, critical_only) {
            token_lines(ts.last().path, ts.last().value, ts.last().token_type, prefix)
        } else {
            Seq::empty()
        }
    }
}

/// The first token with the given path.
pub open spec fn flat_get(ts: Seq<FlatV>, path: Seq<char>) -> Option<FlatV>
    decreases ts.len(),
{
    if ts.len() == 0 {
        None
    } else if ts[0].path == path {
        Some(ts[0])
    } else {
        flat_get(ts.drop_first(), path)
    }
}

/// The declarations of a light token given the dark set: unchanged when the
/// dark value is the same or missing, else light and dark primitives and a
/// `light-dark()` combination.
pub open spec fn light_dark_lines(t: FlatV, dark: Seq<FlatV>, prefix: Option<Seq<char>>) -> Seq<char> {
    match flat_get(dark, t.path) {
        Some(d) => {
            let lv = token_css_spec(t.value, t.token_type);
            let dv = token_css_spec(d.value, d.token_type);
            if lv == dv {
                token_lines(t.path, t.value, t.token_type, prefix)
            } else {
                light_dark_decl(var_name(t.path, prefix), lv, dv)
            }
        },
        None => token_lines(t.path, t.value, t.token_type, prefix),
    }
}

/// The `-on-light` and `-on-dark` primitives of a property and its `light-dark()` value.
pub open spec fn light_dark_decl(n: Seq<char>, lv: Seq<char>, dv: Seq<char>) -> Seq<char> {
    "  "@ + n + "-on-light: "@ + lv + ";\n"@ + "  "@ + n + "-on-dark: "@ + dv + ";\n"@ + "  "@ + n
        + ": light-dark(var("@ + n + "-on-light), var("@ + n + "-on-dark));\n"@
}

pub open spec fn light_css(light: Seq<FlatV>, dark: Seq<FlatV>, critical_only: bool, prefix: Option<Seq<char>>) -> Seq<char>
    decreases light.len(),
{
    if light.len() == 0 {
        Seq::empty()
    } else {
        light_css(light.drop_last(), dark, critical_only, prefix) + if keep_path(light.last().path, critical_only) {
            light_dark_lines(light.last(), dark, prefix)
        } else {
            Seq::empty()
        }
    }
}

/// The `-on-dark` primitives of the kept dark tokens that have no light token.
pub open spec fn dark_only_css(light: Seq<FlatV>, dark: Seq<FlatV>, critical_only: bool, prefix: Option<Seq<char>>) -> Seq<char>
    decreases dark.len(),
{
    if dark.len() == 0 {
        Seq::empty()
    } else {
        let d = dark.last();
        dark_only_css(light, dark.drop_last(), critical_only, prefix) + dark_only_lines(light, d, critical_only, prefix)
    }
}

/// The `-on-dark` primitive of a dark token when it is kept and has no light token.
pub open spec fn dark_only_lines(light: Seq<FlatV>, d: FlatV, critical_only: bool, prefix: Option<Seq<char>>) -> Seq<char> {
    if flat_get(light, d.path) is None && keep_path(d.path, critical_only) {
        "  "@ + var_name(d.path, prefix) + "-on-dark: "@ + token_css_spec(d.value, d.token_type) + ";\n"@
    } else {
        Seq::empty()
    }
}

/// The stylesheet body for a token set (and optionally its dark counterpart).
pub open spec fn css_spec(
    tokens: Seq<FlatV>,
    dark: Option<Seq<FlatV>>,
    critical_only: bool,
    prefix: Option<Seq<char>>,
) -> Seq<char> {
    match dark {
        None => plain_css(tokens, critical_only, prefix),
        Some(d) => light_css(tokens, d, critical_only, prefix) + dark_only_css(tokens, d, critical_only, prefix),
    }
}

// ---------------------------------------------------------------------------
// Executable
// ---------------------------------------------------------------------------

fn push_str(out: &mut String, s: &str)
    ensures
        final(out)@ == old(out)@ + s@,
{
    out.append(s);
}

/// A dimension object as CSS.
fn dimension_of_members(m: &Vec<(String, Json)>) -> (r: String)
    ensures
        r@ == dimension_spec(Some(JsonV::Object(json_obj_view(m@)))),
{
    proof {
        reveal_strlit("value");
        reveal_strlit("unit");
    }
    let unit = match get_str_member(m, "unit") {
        Some(u) => u,
        None => "px",
    };
    match get_member(m, "value") {
        Some(Json::Number(n)) => {
            if n.is_zero {
                "0".to_owned()
            } else if n.is_whole {
                let mut r = n.trunc.clone();
                push_str(&mut r, unit);
                r
            } else {
                let mut r = n.display.clone();
                push_str(&mut r, unit);
                r
            }
        },
        _ => "0".to_owned(),
    }
}

/// A dimension value as CSS.
pub fn dimension_val(val: Option<&Json>) -> (r: String)
    ensures
        r@ == dimension_spec(match val {
            Some(j) => Some(j@),
            None => None,
        }),
{
    match val {
        Some(Json::Object(m)) => dimension_of_members(m),
        Some(Json::Number(n)) => {
            if n.is_zero {
                "0".to_owned()
            } else {
                let mut r = n.display.clone();
                push_str(&mut r, "px");
                r
            }
        },
        _ => "0".to_owned(),
    }
}

/// The CSS shorthand of a shadow object.
pub fn shadow_to_shorthand(m: &Vec<(String, Json)>) -> (r: String)
    ensures
        r@ == shadow_spec(json_obj_view(m@)),
{
    let mut r = dimension_val(get_member(m, "offsetX"));
    push_str(&mut r, " ");
    let y = dimension_val(get_member(m, "offsetY"));
    push_str(&mut r, y.as_str());
    push_str(&mut r, " ");
    let b = dimension_val(get_member(m, "blur"));
    push_str(&mut r, b.as_str());
    push_str(&mut r, " ");
    let s = dimension_val(get_member(m, "spread"));
    push_str(&mut r, s.as_str());
    push_str(&mut r, " ");
    let color = match get_str_member(m, "color") {
        Some(c) => c,
        None => "transparent",
    };
    push_str(&mut r, color);
    r
}

/// The CSS shorthand of a border object.
pub fn border_to_shorthand(m: &Vec<(String, Json)>) -> (r: String)
    ensures
        r@ == border_spec(json_obj_view(m@)),
{
    let mut r = dimension_val(get_member(m, "width"));
    push_str(&mut r, " ");
    let style = match get_str_member(m, "style") {
        Some(s) => s,
        None => "solid",
    };
    push_str(&mut r, style);
    push_str(&mut r, " ");
    let color = match get_str_member(m, "color") {
        Some(c) => c,
        None => "currentColor",
    };
    push_str(&mut r, color);
    r
}

/// Join strings with a separator.
pub fn join_strings(parts: &Vec<String>, sep: &str) -> (r: String)
    ensures
        r@ == join(parts@.map_values(|p: String| p@), sep@),
{
    let ghost ps = parts@.map_values(|p: String| p@);
    let mut r = String::new();
    let mut i: usize = 0;
    while i < parts.len()
        invariant
            i <= parts@.len(),
            ps == parts@.map_values(|p: String| p@),
            r@ == join(ps.take(i as int), sep@),
        decreases parts@.len() - i,
    {
        proof {
            assert(ps.take(i + 1).drop_last() =~= ps.take(i as int));
        }
        if i > 0 {
            push_str(&mut r, sep);
        } else {
            assert(r@ =~= Seq::<char>::empty());
        }
        push_str(&mut r, parts[i].as_str());
        proof {
            if i == 0 {
                assert(ps.take(1)[0] == ps[0]);
            }
        }
        i = i + 1;
    }
    assert(ps.take(parts@.len() as int) =~= ps);
    r
}

/// The shadow shorthands of the objects in a list, joined by `, `.
fn shadow_list(a: &Vec<Json>) -> (r: String)
    ensures
        r@ == join(shadow_parts(json_seq_view(a@)), ", "@),
{
    let ghost av = json_seq_view(a@);
    proof {
        lemma_json_seq_view_len(a@);
    }
    let mut parts: Vec<String> = Vec::new();
    let mut i: usize = 0;
    while i < a.len()
        invariant
            i <= a@.len(),
            av == json_seq_view(a@),
            av.len() == a@.len(),
            forall|k: int| 0 <= k < a@.len() ==> #[trigger] av[k] == json_view(a@[k]),
            parts@.map_values(|p: String| p@) == shadow_parts(av.take(i as int)),
        decreases a@.len() - i,
    {
        proof {
            assert(av.take(i + 1).drop_last() =~= av.take(i as int));
        }
        let ghost before = parts@.map_values(|p: String| p@);
        match &a[i] {
            Json::Object(m) => {
                let s = shadow_to_shorthand(m);
                parts.push(s);
                assert(parts@.map_values(|p: String| p@) =~= before + seq![shadow_spec(json_obj_view(m@))]);
            },
            _ => {
                assert(parts@.map_values(|p: String| p@) =~= before + Seq::<Seq<char>>::empty());
            },
        }
        i = i + 1;
    }
    assert(av.take(a@.len() as int) =~= av);
    join_strings(&parts, ", ")
}

/// The CSS value of a token of the given type.
pub fn token_to_css_value(value: &TokenValue, token_type: Option<&str>) -> (r: String)
    ensures
        r@ == token_css_spec(value@, opt_strref(token_type)),
{
    let ty: &str = match token_type {
        Some(t) => t,
        None => "",
    };
    let has = token_type.is_some();
    proof {
        reveal_strlit("");
        reveal_strlit("dimension");
        reveal_strlit("duration");
        reveal_strlit("shadow");
        reveal_strlit("border");
        reveal_strlit("fontFamily");
        reveal_strlit("cubicBezier");
    }
    match value {
        TokenValue::String(s) => s.clone(),
        TokenValue::Number(n) => number_inline_text(n),
        TokenValue::Bool(b) => if *b { "true".to_owned() } else { "false".to_owned() },
        TokenValue::Object(m) => {
            if has && str_eq(ty, "dimension") {
                dimension_of_members(m)
            } else if has && str_eq(ty, "duration") {
                proof {
                    reveal_strlit("value");
                    reveal_strlit("unit");
                }
                let mut r = match get_member(m, "value") {
                    Some(Json::Number(n)) => n.display.clone(),
                    _ => "0".to_owned(),
                };
                let unit = match get_str_member(m, "unit") {
                    Some(u) => u,
                    None => "ms",
                };
                push_str(&mut r, unit);
                r
            } else if has && str_eq(ty, "shadow") {
                shadow_to_shorthand(m)
            } else if has && str_eq(ty, "border") {
                border_to_shorthand(m)
            } else {
                json_to_string(&Json::Object(clone_members(m)))
            }
        },
        TokenValue::Array(a) => {
            if has && str_eq(ty, "fontFamily") {
                let ghost av = json_seq_view(a@);
                proof {
                    lemma_json_seq_view_len(a@);
                }
                let mut parts: Vec<String> = Vec::new();
                let mut i: usize = 0;
                while i < a.len()
                    invariant
                        i <= a@.len(),
                        av == json_seq_view(a@),
                        av.len() == a@.len(),
                        forall|k: int| 0 <= k < a@.len() ==> #[trigger] av[k] == json_view(a@[k]),
                        parts@.map_values(|p: String| p@) == string_parts(av.take(i as int)),
                    decreases a@.len() - i,
                {
                    let ghost before = parts@.map_values(|p: String| p@);
                    let s = match &a[i] {
                        Json::String(s) => s.clone(),
                        _ => String::new(),
                    };
                    proof {
                        assert(av[i as int] == json_view(a@[i as int]));
                        assert(s@ == str_or(as_str_spec(av[i as int]), Seq::empty()));
                    }
                    parts.push(s);
                    assert(parts@.map_values(|p: String| p@) =~= before.push(s@));
                    assert(string_parts(av.take(i + 1)) =~= string_parts(av.take(i as int)).push(s@));
                    i = i + 1;
                }
                assert(av.take(a@.len() as int) =~= av);
                join_strings(&parts, ", ")
            } else if has && str_eq(ty, "cubicBezier") {
                let ghost av = json_seq_view(a@);
                proof {
                    lemma_json_seq_view_len(a@);
                }
                let mut parts: Vec<String> = Vec::new();
                let mut i: usize = 0;
                while i < a.len()
                    invariant
                        i <= a@.len(),
                        av == json_seq_view(a@),
                        av.len() == a@.len(),
                        forall|k: int| 0 <= k < a@.len() ==> #[trigger] av[k] == json_view(a@[k]),
                        parts@.map_values(|p: String| p@) == number_parts(av.take(i as int)),
                    decreases a@.len() - i,
                {
                    proof {
                        assert(av.take(i + 1).drop_last() =~= av.take(i as int));
                    }
                    let ghost before = parts@.map_values(|p: String| p@);
                    match &a[i] {
                        Json::Number(n) => {
                            parts.push(n.display.clone());
                            assert(parts@.map_values(|p: String| p@) =~= before + seq![n.display@]);
                        },
                        _ => {
                            assert(parts@.map_values(|p: String| p@) =~= before + Seq::<Seq<char>>::empty());
                        },
                    }
                    i = i + 1;
                }
                assert(av.take(a@.len() as int) =~= av);
                let mut r = "cubic-bezier(".to_owned();
                let j = join_strings(&parts, ", ");
                push_str(&mut r, j.as_str());
                push_str(&mut r, ")");
                r
            } else {
                json_to_string(&Json::Array(crate::json::clone_json_vec(a)))
            }
        },
    }
}

/// The CSS value of a member of a composite token.
pub fn json_to_css_value(val: &Json) -> (r: String)
    ensures
        r@ == json_css_spec(val@),
    decreases val,
{
    match val {
        Json::String(s) => s.clone(),
        Json::Number(n) => match &n.int_text {
            Some(i) => i.clone(),
            None => n.display.clone(),
        },
        Json::Object(m) => dimension_of_members(m),
        Json::Array(a) => {
            let ghost av = json_seq_view(a@);
            proof {
                lemma_json_seq_view_len(a@);
            }
            let mut parts: Vec<String> = Vec::new();
            let mut i: usize = 0;
            while i < a.len()
                invariant
                    i <= a@.len(),
                    *val == Json::Array(*a),
                    av == json_seq_view(a@),
                    av.len() == a@.len(),
                    forall|k: int| 0 <= k < a@.len() ==> #[trigger] av[k] == json_view(a@[k]),
                    parts@.map_values(|p: String| p@) == json_css_seq(av.take(i as int)),
                decreases a@.len() - i,
            {
                proof {
                    vstd::std_specs::vec::axiom_vec_index_decreases(*a, i as int);
                    assert(decreases_to!(*val => val->Array_0));
                    assert(av.take(i + 1).subrange(0, i as int) =~= av.take(i as int));
                }
                let s = json_to_css_value(&a[i]);
                parts.push(s);
                assert(parts@.map_values(|p: String| p@) =~= json_css_seq(av.take(i + 1)));
                i = i + 1;
            }
            assert(av.take(a@.len() as int) =~= av);
            join_strings(&parts, ", ")
        },
        Json::Bool(b) => if *b { "true".to_owned() } else { "false".to_owned() },
        Json::Null => "none".to_owned(),
    }
}

/// Append one declaration line.
fn push_line(css: &mut String, name: &str, value: &str)
    ensures
        final(css)@ == old(css)@ + css_line(name@, value@),
{
    push_str(css, "  ");
    push_str(css, name);
    push_str(css, ": ");
    push_str(css, value);
    push_str(css, ";\n");
}

/// Append the lines of a composite (typography) token.
fn write_composite_vars(css: &mut String, path: &str, m: &Vec<(String, Json)>, prefix: Option<&str>)
    ensures
        final(css)@ == old(css)@ + composite_lines(path@, json_obj_view(m@), opt_strref(prefix)),
{
    let ghost mv = json_obj_view(m@);
    let ghost start = css@;
    proof {
        lemma_json_obj_view_len(m@);
    }
    let mut i: usize = 0;
    while i < m.len()
        invariant
            i <= m@.len(),
            mv == json_obj_view(m@),
            mv.len() == m@.len(),
            forall|k: int| 0 <= k < m@.len() ==> #[trigger] mv[k] == (m@[k].0@, json_view(m@[k].1)),
            css@ == start + composite_lines(path@, mv.take(i as int), opt_strref(prefix)),
        decreases m@.len() - i,
    {
        proof {
            assert(mv.take(i + 1).drop_last() =~= mv.take(i as int));
        }
        let mut sub = path.to_owned();
        crate::text::push_char(&mut sub, '.');
        push_str(&mut sub, m[i].0.as_str());
        assert(sub@ =~= path@ + seq!['.'] + mv[i as int].0);
        let name = path_to_var_name_with_prefix(sub.as_str(), prefix);
        let val = json_to_css_value(&m[i].1);
        let ghost before = css@;
        push_line(css, name.as_str(), val.as_str());
        assert(css@ =~= before + css_line(
            var_name(path@ + seq!['.'] + mv[i as int].0, opt_strref(prefix)),
            json_css_spec(mv[i as int].1),
        ));
        i = i + 1;
    }
    assert(mv.take(m@.len() as int) =~= mv);
}

/// Append the declarations of one token.
pub fn write_token_vars(css: &mut String, path: &str, value: &TokenValue, token_type: Option<&str>, prefix: Option<&str>)
    ensures
        final(css)@ == old(css)@ + token_lines(path@, value@, opt_strref(token_type), opt_strref(prefix)),
{
    let ty: &str = match token_type {
        Some(t) => t,
        None => "",
    };
    let has = token_type.is_some();
    proof {
        reveal_strlit("");
        reveal_strlit("typography");
        reveal_strlit("shadow");
        reveal_strlit("border");
    }
    match value {
        TokenValue::Object(m) => {
            if has && str_eq(ty, "typography") {
                write_composite_vars(css, path, m, prefix);
                return;
            } else if has && str_eq(ty, "shadow") {
                let name = path_to_var_name_with_prefix(path, prefix);
                let v = shadow_to_shorthand(m);
                push_line(css, name.as_str(), v.as_str());
                return;
            } else if has && str_eq(ty, "border") {
                let name = path_to_var_name_with_prefix(path, prefix);
                let v = border_to_shorthand(m);
                push_line(css, name.as_str(), v.as_str());
                return;
            }
        },
        TokenValue::Array(a) => {
            if has && str_eq(ty, "shadow") {
                let name = path_to_var_name_with_prefix(path, prefix);
                let v = shadow_list(a);
                push_line(css, name.as_str(), v.as_str());
                return;
            }
        },
        _ => {},
    }
    let name = path_to_var_name_with_prefix(path, prefix);
    let v = token_to_css_value(value, token_type);
    push_line(css, name.as_str(), v.as_str());
}

/// Whether a path goes in the stylesheet being written.
fn keep(path: &str, critical_only: bool) -> (b: bool)
    ensures
        b == keep_path(path@, critical_only),
{
    let c = str_contains(path, "-critical");
    if critical_only { c } else { !c }
}

/// The first token with the given path.
fn find_token<'a>(ts: &'a Vec<FlatToken>, path: &str) -> (r: Option<&'a FlatToken>)
    ensures
        match r {
            Some(t) => flat_get(flat_views(ts@), path@) == Some(t@),
            None => flat_get(flat_views(ts@), path@) is None,
        },
{
    let ghost fv = flat_views(ts@);
    let mut i: usize = 0;
    while i < ts.len()
        invariant
            i <= ts@.len(),
            fv == flat_views(ts@),
            forall|j: int| 0 <= j < i ==> (#[trigger] fv[j]).path != path@,
        decreases ts@.len() - i,
    {
        if str_eq(ts[i].path.as_str(), path) {
            proof {
                lemma_flat_get_skip(fv, path@, i as int);
                assert(fv.skip(i as int)[0] == fv[i as int]);
            }
            return Some(&ts[i]);
        }
        i = i + 1;
    }
    proof {
        lemma_flat_get_skip(fv, path@, i as int);
    }
    None
}

proof fn lemma_flat_get_skip(ts: Seq<FlatV>, path: Seq<char>, i: int)
    requires
        0 <= i <= ts.len(),
        forall|j: int| 0 <= j < i ==> (#[trigger] ts[j]).path != path,
    ensures
        flat_get(ts, path) == flat_get(ts.skip(i), path),
    decreases i,
{
    if i > 0 {
        assert(ts[0].path != path);
        assert(ts.drop_first().skip(i - 1) =~= ts.skip(i));
        assert forall|j: int| 0 <= j < i - 1 implies (#[trigger] ts.drop_first()[j]).path != path by {
            assert(ts.drop_first()[j] == ts[j + 1]);
        }
        lemma_flat_get_skip(ts.drop_first(), path, i - 1);
    } else {
        assert(ts.skip(0) =~= ts);
    }
}

/// Append the light, dark and combined declarations of one property.
fn push_light_dark_decl(css: &mut String, n: &str, lv: &str, dv: &str)
    ensures
        final(css)@ == old(css)@ + light_dark_decl(n@, lv@, dv@),
{
    let ghost start = css@;
    push_str(css, "  ");
    push_str(css, n);
    push_str(css, "-on-light: ");
    push_str(css, lv);
    push_str(css, ";\n");
    push_str(css, "  ");
    push_str(css, n);
    push_str(css, "-on-dark: ");
    push_str(css, dv);
    push_str(css, ";\n");
    push_str(css, "  ");
    push_str(css, n);
    push_str(css, ": light-dark(var(");
    push_str(css, n);
    push_str(css, "-on-light), var(");
    push_str(css, n);
    push_str(css, "-on-dark));\n");
    assert(css@ =~= start + light_dark_decl(n@, lv@, dv@));
}

/// Append the declarations of a light token given the dark token set.
fn write_light_dark(css: &mut String, t: &FlatToken, dark: &Vec<FlatToken>, prefix: Option<&str>)
    ensures
        final(css)@ == old(css)@ + light_dark_lines(t@, flat_views(dark@), opt_strref(prefix)),
{
    let tt = match &t.token_type {
        Some(s) => Some(s.as_str()),
        None => None,
    };
    match find_token(dark, t.path.as_str()) {
        Some(d) => {
            let dt = match &d.token_type {
                Some(s) => Some(s.as_str()),
                None => None,
            };
            let lv = token_to_css_value(&t.value, tt);
            let dv = token_to_css_value(&d.value, dt);
            if str_eq(lv.as_str(), dv.as_str()) {
                write_token_vars(css, t.path.as_str(), &t.value, tt, prefix);
            } else {
                let n = path_to_var_name_with_prefix(t.path.as_str(), prefix);
                push_light_dark_decl(css, n.as_str(), lv.as_str(), dv.as_str());
            }
        },
        None => {
            write_token_vars(css, t.path.as_str(), &t.value, tt, prefix);
        },
    }
}

/// Append the `-on-dark` primitive of a dark token without a light token.
fn write_dark_only(css: &mut String, light: &Vec<FlatToken>, d: &FlatToken, critical_only: bool, prefix: Option<&str>)
    ensures
        final(css)@ == old(css)@ + dark_only_lines(flat_views(light@), d@, critical_only, opt_strref(prefix)),
{
    let ghost start = css@;
    if find_token(light, d.path.as_str()).is_none() && keep(d.path.as_str(), critical_only) {
        let n = path_to_var_name_with_prefix(d.path.as_str(), prefix);
        let dt = match &d.token_type {
            Some(s) => Some(s.as_str()),
            None => None,
        };
        let v = token_to_css_value(&d.value, dt);
        push_str(css, "  ");
        push_str(css, n.as_str());
        push_str(css, "-on-dark: ");
        push_str(css, v.as_str());
        push_str(css, ";\n");
        assert(css@ =~= start + ("  "@ + n@ + "-on-dark: "@ + v@ + ";\n"@));
    } else {
        assert(css@ =~= start + Seq::<char>::empty());
    }
}

/// Generate CSS custom properties from a flat token list (in path order),
/// with an optional name prefix.  With `critical_only`, only tokens whose path
/// contains `-critical` are written; otherwise only the others.
pub fn generate_css_with_prefix(
    tokens: &Vec<FlatToken>,
    dark_tokens: Option<&Vec<FlatToken>>,
    critical_only: bool,
    prefix: Option<&str>,
) -> (css: String)
    ensures
        css@ == css_spec(
            flat_views(tokens@),
            match dark_tokens {
                Some(d) => Some(flat_views(d@)),
                None => None,
            },
            critical_only,
            opt_strref(prefix),
        ),
{
    let ghost tv = flat_views(tokens@);
    let mut css = String::new();
    match dark_tokens {
        None => {
            let mut i: usize = 0;
            while i < tokens.len()
                invariant
                    i <= tokens@.len(),
                    tv == flat_views(tokens@),
                    css@ == plain_css(tv.take(i as int), critical_only, opt_strref(prefix)),
                decreases tokens@.len() - i,
            {
                proof {
                    assert(tv.take(i + 1).drop_last() =~= tv.take(i as int));
                }
                let t = &tokens[i];
                if keep(t.path.as_str(), critical_only) {
                    let tt = match &t.token_type {
                        Some(s) => Some(s.as_str()),
                        None => None,
                    };
                    write_token_vars(&mut css, t.path.as_str(), &t.value, tt, prefix);
                } else {
                    assert(css@ =~= css@ + Seq::<char>::empty());
                }
                i = i + 1;
            }
            assert(tv.take(tokens@.len() as int) =~= tv);
        },
        Some(dark) => {
            let ghost dv = flat_views(dark@);
            let mut i: usize = 0;
            while i < tokens.len()
                invariant
                    i <= tokens@.len(),
                    tv == flat_views(tokens@),
                    dv == flat_views(dark@),
                    css@ == light_css(tv.take(i as int), dv, critical_only, opt_strref(prefix)),
                decreases tokens@.len() - i,
            {
                proof {
                    assert(tv.take(i + 1).drop_last() =~= tv.take(i as int));
                }
                let t = &tokens[i];
                if keep(t.path.as_str(), critical_only) {
                    write_light_dark(&mut css, t, dark, prefix);
                } else {
                    assert(css@ =~= css@ + Seq::<char>::empty());
                }
                i = i + 1;
            }
            assert(tv.take(tokens@.len() as int) =~= tv);
            let ghost lpart = css@;
            let mut j: usize = 0;
            while j < dark.len()
                invariant
                    j <= dark@.len(),
                    tv == flat_views(tokens@),
                    dv == flat_views(dark@),
                    css@ == lpart + dark_only_css(tv, dv.take(j as int), critical_only, opt_strref(prefix)),
                decreases dark@.len() - j,
            {
                proof {
                    assert(dv.take(j + 1).drop_last() =~= dv.take(j as int));
                }
                write_dark_only(&mut css, tokens, &dark[j], critical_only, prefix);
                j = j + 1;
            }
            assert(dv.take(dark@.len() as int) =~= dv);
        },
    }
    css
}

/// Generate CSS custom properties (no name prefix).
pub fn generate_css(tokens: &Vec<FlatToken>, dark_tokens: Option<&Vec<FlatToken>>, critical_only: bool) -> (css: String)
    ensures
        css@ == css_spec(
            flat_views(tokens@),
            match dark_tokens {
                Some(d) => Some(flat_views(d@)),
                None => None,
            },
            critical_only,
            None,
        ),
{
    generate_css_with_prefix(tokens, dark_tokens, critical_only, None)
}


/// Every token goes into exactly one of the two stylesheets: the critical one
/// when its path contains `-critical`, the deferred one otherwise.
pub proof fn law_critical_split(path: Seq<char>)
    ensures
        keep_path(path, true) != keep_path(path, false),
        keep_path(path, true) == contains_seq(path, "-critical"@),
{
}


/// The tokens whose path belongs in the given stylesheet, in order.
pub open spec fn kept_tokens(ts: Seq<FlatV>, critical_only: bool) -> Seq<FlatV>
    decreases ts.len(),
{
    if ts.len() == 0 {
        Seq::empty()
    } else {
        kept_tokens(ts.drop_last(), critical_only) + if keep_path(ts.last().path, critical_only) {
            seq![ts.last()]
        } else {
            Seq::empty()
        }
    }
}

/// Every declaration of every token of a list, in order.
pub open spec fn all_token_lines(ts: Seq<FlatV>, prefix: Option<Seq<char>>) -> Seq<char>
    decreases ts.len(),
{
    if ts.len() == 0 {
        Seq::empty()
    } else {
        all_token_lines(ts.drop_last(), prefix) + token_lines(ts.last().path, ts.last().value, ts.last().token_type, prefix)
    }
}

/// Every declaration of every light token of a list against the dark set, in order.
pub open spec fn all_light_dark_lines(ts: Seq<FlatV>, dark: Seq<FlatV>, prefix: Option<Seq<char>>) -> Seq<char>
    decreases ts.len(),
{
    if ts.len() == 0 {
        Seq::empty()
    } else {
        all_light_dark_lines(ts.drop_last(), dark, prefix) + light_dark_lines(ts.last(), dark, prefix)
    }
}

/// Every dark-only declaration of every dark token of a list, in order.
pub open spec fn all_dark_only_lines(light: Seq<FlatV>, ds: Seq<FlatV>, critical_only: bool, prefix: Option<Seq<char>>) -> Seq<char>
    decreases ds.len(),
{
    if ds.len() == 0 {
        Seq::empty()
    } else {
        all_dark_only_lines(light, ds.drop_last(), critical_only, prefix) + dark_only_lines(light, ds.last(), critical_only, prefix)
    }
}

proof fn lemma_kept_sheet(ts: Seq<FlatV>, dark: Seq<FlatV>, critical_only: bool, prefix: Option<Seq<char>>)
    ensures
        plain_css(ts, critical_only, prefix) == all_token_lines(kept_tokens(ts, critical_only), prefix),
        light_css(ts, dark, critical_only, prefix) == all_light_dark_lines(kept_tokens(ts, critical_only), dark, prefix),
        dark_only_css(ts, dark, critical_only, prefix) == all_dark_only_lines(ts, kept_tokens(dark, critical_only), critical_only, prefix),
        forall|i: int| 0 <= i < kept_tokens(ts, critical_only).len()
            ==> keep_path(#[trigger] kept_tokens(ts, critical_only)[i].path, critical_only),
        kept_tokens(ts, true).len() + kept_tokens(ts, false).len() == ts.len(),
    decreases ts.len() + dark.len(),
{
    if ts.len() > 0 {
        lemma_kept_sheet(ts.drop_last(), dark, critical_only, prefix);
        let k0 = kept_tokens(ts.drop_last(), critical_only);
        let t = ts.last();
        if keep_path(t.path, critical_only) {
            assert((k0 + seq![t]).drop_last() =~= k0);
            assert((k0 + seq![t]).last() == t);
            assert forall|i: int| 0 <= i < kept_tokens(ts, critical_only).len()
                implies keep_path(#[trigger] kept_tokens(ts, critical_only)[i].path, critical_only) by {
                if i < k0.len() {
                    assert(kept_tokens(ts, critical_only)[i] == k0[i]);
                }
            }
        } else {
            assert(k0 + Seq::<FlatV>::empty() =~= k0);
            assert(plain_css(ts, critical_only, prefix) =~= plain_css(ts.drop_last(), critical_only, prefix));
            assert(light_css(ts, dark, critical_only, prefix) =~= light_css(ts.drop_last(), dark, critical_only, prefix));
        }
        assert(keep_path(t.path, true) != keep_path(t.path, false));
    }
    lemma_kept_dark(ts, dark, critical_only, prefix);
}

proof fn lemma_kept_dark(light: Seq<FlatV>, dark: Seq<FlatV>, critical_only: bool, prefix: Option<Seq<char>>)
    ensures
        dark_only_css(light, dark, critical_only, prefix) == all_dark_only_lines(light, kept_tokens(dark, critical_only), critical_only, prefix),
    decreases dark.len(),
{
    if dark.len() > 0 {
        lemma_kept_dark(light, dark.drop_last(), critical_only, prefix);
        let k0 = kept_tokens(dark.drop_last(), critical_only);
        let d = dark.last();
        if keep_path(d.path, critical_only) {
            assert((k0 + seq![d]).drop_last() =~= k0);
            assert((k0 + seq![d]).last() == d);
        } else {
            assert(k0 + Seq::<FlatV>::empty() =~= k0);
            assert(dark_only_lines(light, d, critical_only, prefix) == Seq::<char>::empty());
            assert(dark_only_css(light, dark, critical_only, prefix) =~= dark_only_css(light, dark.drop_last(), critical_only, prefix));
        }
    }
}

/// Each stylesheet is made of exactly the tokens of its kind: the critical sheet is
/// every declaration of the tokens whose path contains `-critical` (and of the dark
/// tokens of that kind), the deferred sheet every declaration of the others; a token is
/// of exactly one kind, so each of its lines (composite members and `-on-light` /
/// `-on-dark` variants included) is in one sheet and never in the other.
pub proof fn law_sheet_of_kept_tokens(ts: Seq<FlatV>, dark: Option<Seq<FlatV>>, critical_only: bool, prefix: Option<Seq<char>>)
    ensures
        css_spec(ts, dark, critical_only, prefix) == match dark {
            None => all_token_lines(kept_tokens(ts, critical_only), prefix),
            Some(d) => all_light_dark_lines(kept_tokens(ts, critical_only), d, prefix)
                + all_dark_only_lines(ts, kept_tokens(d, critical_only), critical_only, prefix),
        },
        forall|i: int| 0 <= i < kept_tokens(ts, true).len() ==> contains_seq(#[trigger] kept_tokens(ts, true)[i].path, "-critical"@),
        forall|i: int| 0 <= i < kept_tokens(ts, false).len() ==> !contains_seq(#[trigger] kept_tokens(ts, false)[i].path, "-critical"@),
        kept_tokens(ts, true).len() + kept_tokens(ts, false).len() == ts.len(),
{
    let d = match dark { Some(d) => d, None => Seq::empty() };
    lemma_kept_sheet(ts, d, critical_only, prefix);
    lemma_kept_sheet(ts, d, true, prefix);
    lemma_kept_sheet(ts, d, false, prefix);
}


proof fn lemma_sheet_concat(a: Seq<FlatV>, b: Seq<FlatV>, dark: Seq<FlatV>, light: Seq<FlatV>, c: bool, prefix: Option<Seq<char>>)
    ensures
        plain_css(a + b, c, prefix) == plain_css(a, c, prefix) + plain_css(b, c, prefix),
        light_css(a + b, dark, c, prefix) == light_css(a, dark, c, prefix) + light_css(b, dark, c, prefix),
        dark_only_css(light, a + b, c, prefix) == dark_only_css(light, a, c, prefix) + dark_only_css(light, b, c, prefix),
    decreases b.len(),
{
    if b.len() == 0 {
        assert(a + b =~= a);
        assert(plain_css(a, c, prefix) + Seq::<char>::empty() =~= plain_css(a, c, prefix));
        assert(light_css(a, dark, c, prefix) + Seq::<char>::empty() =~= light_css(a, dark, c, prefix));
        assert(dark_only_css(light, a, c, prefix) + Seq::<char>::empty() =~= dark_only_css(light, a, c, prefix));
    } else {
        lemma_sheet_concat(a, b.drop_last(), dark, light, c, prefix);
        assert((a + b).drop_last() =~= a + b.drop_last());
        assert((a + b).last() == b.last());
        let t = b.last();
        let pl = if keep_path(t.path, c) { token_lines(t.path, t.value, t.token_type, prefix) } else { Seq::<char>::empty() };
        let ll = if keep_path(t.path, c) { light_dark_lines(t, dark, prefix) } else { Seq::<char>::empty() };
        let dl = dark_only_lines(light, t, c, prefix);
        assert(plain_css(a, c, prefix) + plain_css(b.drop_last(), c, prefix) + pl
            =~= plain_css(a, c, prefix) + (plain_css(b.drop_last(), c, prefix) + pl));
        assert(light_css(a, dark, c, prefix) + light_css(b.drop_last(), dark, c, prefix) + ll
            =~= light_css(a, dark, c, prefix) + (light_css(b.drop_last(), dark, c, prefix) + ll));
        assert(dark_only_css(light, a, c, prefix) + dark_only_css(light, b.drop_last(), c, prefix) + dl
            =~= dark_only_css(light, a, c, prefix) + (dark_only_css(light, b.drop_last(), c, prefix) + dl));
    }
}

proof fn lemma_sheet_at(ts: Seq<FlatV>, i: int, dark: Seq<FlatV>, light: Seq<FlatV>, c: bool, prefix: Option<Seq<char>>)
    requires
        0 <= i < ts.len(),
    ensures
        plain_css(ts, c, prefix) == plain_css(ts.take(i), c, prefix) + (if keep_path(ts[i].path, c) {
            token_lines(ts[i].path, ts[i].value, ts[i].token_type, prefix)
        } else {
            Seq::empty()
        }) + plain_css(ts.skip(i + 1), c, prefix),
        light_css(ts, dark, c, prefix) == light_css(ts.take(i), dark, c, prefix) + (if keep_path(ts[i].path, c) {
            light_dark_lines(ts[i], dark, prefix)
        } else {
            Seq::empty()
        }) + light_css(ts.skip(i + 1), dark, c, prefix),
        dark_only_css(light, ts, c, prefix) == dark_only_css(light, ts.take(i), c, prefix)
            + dark_only_lines(light, ts[i], c, prefix) + dark_only_css(light, ts.skip(i + 1), c, prefix),
{
    let one = seq![ts[i]];
    assert(ts =~= ts.take(i) + one + ts.skip(i + 1));
    lemma_sheet_concat(ts.take(i) + one, ts.skip(i + 1), dark, light, c, prefix);
    lemma_sheet_concat(ts.take(i), one, dark, light, c, prefix);
    assert(one.drop_last() =~= Seq::<FlatV>::empty());
    assert(one.last() == ts[i]);
    let pl = if keep_path(ts[i].path, c) { token_lines(ts[i].path, ts[i].value, ts[i].token_type, prefix) } else { Seq::<char>::empty() };
    let ll = if keep_path(ts[i].path, c) { light_dark_lines(ts[i], dark, prefix) } else { Seq::<char>::empty() };
    assert(plain_css(one.drop_last(), c, prefix) == Seq::<char>::empty());
    assert(light_css(one.drop_last(), dark, c, prefix) == Seq::<char>::empty());
    assert(plain_css(one, c, prefix) == plain_css(one.drop_last(), c, prefix) + pl);
    assert(light_css(one, dark, c, prefix) == light_css(one.drop_last(), dark, c, prefix) + ll);
    assert(Seq::<char>::empty() + pl =~= pl);
    assert(Seq::<char>::empty() + ll =~= ll);
    let dl = dark_only_lines(light, ts[i], c, prefix);
    assert(dark_only_css(light, one.drop_last(), c, prefix) == Seq::<char>::empty());
    assert(dark_only_css(light, one, c, prefix) == dark_only_css(light, one.drop_last(), c, prefix) + dl);
    assert(Seq::<char>::empty() + dl =~= dl);
}

/// Each token's declarations land in exactly one stylesheet: the sheet of each kind is
/// the sheet of the tokens before it, then the token's own lines when its path is of
/// that kind (nothing otherwise), then the sheet of the tokens after it; and a path is
/// of exactly one kind.  The same holds of the `light-dark()` lines of a light token and
/// of the `-on-dark` line of a dark token without a light one.
pub proof fn law_token_lines_in_one_sheet(ts: Seq<FlatV>, i: int, dark: Seq<FlatV>, prefix: Option<Seq<char>>)
    requires
        0 <= i < ts.len(),
    ensures
        keep_path(ts[i].path, true) != keep_path(ts[i].path, false),
        forall|c: bool| #[trigger] plain_css(ts, c, prefix) == plain_css(ts.take(i), c, prefix) + (if keep_path(ts[i].path, c) {
            token_lines(ts[i].path, ts[i].value, ts[i].token_type, prefix)
        } else {
            Seq::empty()
        }) + plain_css(ts.skip(i + 1), c, prefix),
        forall|c: bool| #[trigger] light_css(ts, dark, c, prefix) == light_css(ts.take(i), dark, c, prefix) + (if keep_path(ts[i].path, c) {
            light_dark_lines(ts[i], dark, prefix)
        } else {
            Seq::empty()
        }) + light_css(ts.skip(i + 1), dark, c, prefix),
        forall|c: bool, light: Seq<FlatV>| #[trigger] dark_only_css(light, ts, c, prefix) == dark_only_css(light, ts.take(i), c, prefix)
            + dark_only_lines(light, ts[i], c, prefix) + dark_only_css(light, ts.skip(i + 1), c, prefix),
        forall|light: Seq<FlatV>| dark_only_lines(light, ts[i], true, prefix) == Seq::<char>::empty()
            || #[trigger] dark_only_lines(light, ts[i], false, prefix) == Seq::<char>::empty(),
{
    assert forall|c: bool| #[trigger] plain_css(ts, c, prefix) == plain_css(ts.take(i), c, prefix) + (if keep_path(ts[i].path, c) {
        token_lines(ts[i].path, ts[i].value, ts[i].token_type, prefix)
    } else {
        Seq::empty()
    }) + plain_css(ts.skip(i + 1), c, prefix) by {
        lemma_sheet_at(ts, i, dark, ts, c, prefix);
    }
    assert forall|c: bool| #[trigger] light_css(ts, dark, c, prefix) == light_css(ts.take(i), dark, c, prefix) + (if keep_path(ts[i].path, c) {
        light_dark_lines(ts[i], dark, prefix)
    } else {
        Seq::empty()
    }) + light_css(ts.skip(i + 1), dark, c, prefix) by {
        lemma_sheet_at(ts, i, dark, ts, c, prefix);
    }
    assert forall|c: bool, light: Seq<FlatV>| #[trigger] dark_only_css(light, ts, c, prefix) == dark_only_css(light, ts.take(i), c, prefix)
        + dark_only_lines(light, ts[i], c, prefix) + dark_only_css(light, ts.skip(i + 1), c, prefix) by {
        lemma_sheet_at(ts, i, dark, light, c, prefix);
    }
}

/// A border token's declaration carries its own style: the shorthand is the
/// width, then the token's `style` member, then its color (`currentColor`
/// when it has none); `solid` stands only where the token has no string
/// `style` member.
pub proof fn law_border_keeps_style(
    path: Seq<char>,
    m: Seq<(Seq<char>, JsonV)>,
    prefix: Option<Seq<char>>,
)
    ensures
        member(m, "style"@) matches Some(JsonV::String(st)) ==> token_lines(
            path,
            TokenValueV::Object(m),
            Some("border"@),
            prefix,
        ) == css_line(
            var_name(path, prefix),
            dimension_spec(member(m, "width"@)) + " "@ + st + " "@ + str_or(
                str_member(m, "color"@),
                "currentColor"@,
            ),
        ),
        !(member(m, "style"@) matches Some(JsonV::String(_))) ==> token_lines(
            path,
            TokenValueV::Object(m),
            Some("border"@),
            prefix,
        ) == css_line(
            var_name(path, prefix),
            dimension_spec(member(m, "width"@)) + " "@ + "solid"@ + " "@ + str_or(
                str_member(m, "color"@),
                "currentColor"@,
            ),
        ),
{
    reveal_strlit("border");
    reveal_strlit("typography");
    reveal_strlit("shadow");
    assert("border"@.len() != "typography"@.len());
    assert("border"@[0] != "shadow"@[0]);
}

} // verus!
