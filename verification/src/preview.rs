//! The index page of a theme preview site: links to sample pages, colour
//! swatches, typography specimens and the spacing scale of the theme's tokens.
use vstd::prelude::*;
use crate::css::str_or;
use crate::json::{get_member, get_str_member, json_obj_view, member, number_inline, number_inline_text, str_member, Json, JsonV};
use crate::optimize::{replace_all, replace_str};
use crate::text::{str_eq, to_lowercase, unicode_lowercase};
use crate::theme::{css_var_spec, path_to_css_var_name};
use crate::tokens::{flat_views, FlatToken, FlatV, TokenValue, TokenValueV};

verus! {

/// The page head and its style sheet, up to the theme name in the heading.
pub const PREVIEW_HEAD: &'static str = r#"<!DOCTYPE html>
<html lang="en">
<head>
    <meta charset="UTF-8">
    <meta name="viewport" content="width=device-width, initial-scale=1.0">
    <title>{{ title }} — Theme Preview</title>
    <link rel="stylesheet" href="/tokens.css">
    <style>
        * { margin: 0; padding: 0; box-sizing: border-box; }
        body {
            font-family: system-ui, -apple-system, sans-serif;
            line-height: 1.6;
            color: #1a1a1a;
            background: #ffffff;
            padding: 2rem;
            max-width: 64rem;
            margin: 0 auto;
        }
        h1 { font-size: 2rem; margin-bottom: 1rem; }
        h2 { font-size: 1.5rem; margin-top: 2rem; margin-bottom: 1rem; border-bottom: 1px solid #ddd; padding-bottom: 0.5rem; }
        h3 { font-size: 1.1rem; margin-top: 1rem; margin-bottom: 0.5rem; }
        .section { margin-bottom: 2rem; }
        .swatch-grid { display: grid; grid-template-columns: repeat(auto-fill, minmax(160px, 1fr)); gap: 1rem; }
        .swatch {
            border: 1px solid #ddd;
            border-radius: 6px;
            overflow: hidden;
        }
        .swatch-color {
            height: 60px;
            border-bottom: 1px solid #ddd;
        }
        .swatch-info {
            padding: 0.5rem;
            font-size: 0.75rem;
        }
        .swatch-name {
            font-weight: 600;
            word-break: break-all;
        }
        .swatch-value {
            color: #666;
            font-family: monospace;
        }
        .type-specimen {
            padding: 1rem;
            border: 1px solid #ddd;
            border-radius: 6px;
            margin-bottom: 1rem;
        }
        .type-label {
            font-size: 0.75rem;
            color: #666;
            font-family: monospace;
            margin-bottom: 0.25rem;
        }
        .spacing-bar {
            display: flex;
            align-items: center;
            gap: 1rem;
            margin-bottom: 0.5rem;
        }
        .spacing-visual {
            background: #0066cc33;
            border: 1px solid #0066cc;
            height: 1.5rem;
            border-radius: 3px;
            min-width: 2px;
        }
        .spacing-label {
            font-size: 0.75rem;
            font-family: monospace;
            white-space: nowrap;
        }
        .links { margin-bottom: 1rem; }
        .links a {
            display: inline-block;
            margin-right: 1rem;
            margin-bottom: 0.5rem;
            color: #0066cc;
            text-decoration: none;
        }
        .links a:hover { text-decoration: underline; }
    </style>
</head>
<body>
    <h1>Theme Preview: "#;

/// The sample sentence of a typography specimen.
pub const SAMPLE_TEXT: &'static str = "The quick brown fox jumps over the lazy dog";

/// The number member `key` of an object, if it is a number.
pub open spec fn num_member(m: Seq<(Seq<char>, JsonV)>, key: Seq<char>) -> Option<crate::json::JsonNumber> {
    match member(m, key) {
        Some(JsonV::Number(n)) => Some(n),
        _ => None,
    }
}

/// The colour tokens with string values, as (path, colour).
pub open spec fn color_entries(ts: Seq<FlatV>) -> Seq<(Seq<char>, Seq<char>)>
    decreases ts.len(),
{
    if ts.len() == 0 {
        Seq::empty()
    } else {
        color_entries(ts.drop_last()) + if ts.last().token_type == Some("color"@) {
            match ts.last().value {
                TokenValueV::String(s) => seq![(ts.last().path, s)],
                _ => Seq::empty(),
            }
        } else {
            Seq::empty()
        }
    }
}

/// The `font-family` part of a specimen's style.
pub open spec fn family_part(m: Seq<(Seq<char>, JsonV)>) -> Seq<char> {
    match str_member(m, "fontFamily"@) {
        Some(f) => "font-family: "@ + f + "; "@,
        None => Seq::empty(),
    }
}

/// The `font-size` part: a string as it is, or an object's value (16 when
/// missing) and unit (`px` by default).
pub open spec fn size_part(m: Seq<(Seq<char>, JsonV)>) -> Seq<char> {
    match member(m, "fontSize"@) {
        Some(JsonV::String(s)) => "font-size: "@ + s + "; "@,
        Some(JsonV::Object(o)) => "font-size: "@ + str_or(
            match num_member(o, "value"@) {
                Some(n) => Some(n.display@),
                None => None,
            },
            "16"@,
        ) + str_or(str_member(o, "unit"@), "px"@) + "; "@,
        _ => Seq::empty(),
    }
}

/// The `font-weight` part (the number cast to a whole number).
pub open spec fn weight_part(m: Seq<(Seq<char>, JsonV)>) -> Seq<char> {
    match num_member(m, "fontWeight"@) {
        Some(n) => "font-weight: "@ + n.trunc@ + "; "@,
        None => Seq::empty(),
    }
}

/// The `line-height` part.
pub open spec fn height_part(m: Seq<(Seq<char>, JsonV)>) -> Seq<char> {
    match num_member(m, "lineHeight"@) {
        Some(n) => "line-height: "@ + n.display@ + "; "@,
        None => Seq::empty(),
    }
}

/// The inline style of a typography specimen: the font family, size, weight
/// and line height the token's object gives.
pub open spec fn typo_style(v: TokenValueV) -> Seq<char> {
    match v {
        TokenValueV::Object(m) => family_part(m) + size_part(m) + weight_part(m) + height_part(m),
        _ => Seq::empty(),
    }
}

/// The typography tokens, as (path, inline style).
pub open spec fn typography_entries(ts: Seq<FlatV>) -> Seq<(Seq<char>, Seq<char>)>
    decreases ts.len(),
{
    if ts.len() == 0 {
        Seq::empty()
    } else {
        typography_entries(ts.drop_last()) + if ts.last().token_type == Some("typography"@) {
            seq![(ts.last().path, typo_style(ts.last().value))]
        } else {
            Seq::empty()
        }
    }
}

/// A dimension token's value as CSS: a string as it is, a number of pixels, or
/// an object's value (zero when missing) and unit (`px` by default).
pub open spec fn dim_text(v: TokenValueV) -> Seq<char> {
    match v {
        TokenValueV::String(s) => s,
        TokenValueV::Number(n) => number_inline(n) + "px"@,
        TokenValueV::Object(m) => str_or(
            match num_member(m, "value"@) {
                Some(n) => Some(number_inline(n)),
                None => None,
            },
            "0"@,
        ) + str_or(str_member(m, "unit"@), "px"@),
        _ => Seq::empty(),
    }
}

/// The dimension tokens with a non-empty value, as (path, value).
pub open spec fn dimension_entries(ts: Seq<FlatV>) -> Seq<(Seq<char>, Seq<char>)>
    decreases ts.len(),
{
    if ts.len() == 0 {
        Seq::empty()
    } else {
        dimension_entries(ts.drop_last()) + if ts.last().token_type == Some("dimension"@) && dim_text(
            ts.last().value,
        ).len() > 0 {
            seq![(ts.last().path, dim_text(ts.last().value))]
        } else {
            Seq::empty()
        }
    }
}

/// The URL slug of a content type: lower case, spaces as hyphens.
pub open spec fn slug(ct: Seq<char>) -> Seq<char> {
    replace_all(unicode_lowercase(ct), " "@, "-"@)
}

/// One link per content type (a sample page when there are none).
pub open spec fn link_lines(cts: Seq<Seq<char>>) -> Seq<char>
    decreases cts.len(),
{
    if cts.len() == 0 {
        Seq::empty()
    } else {
        link_lines(cts.drop_last()) + "            <a href=\"/"@ + slug(cts.last()) + ".html\">"@ + cts.last() + "</a>\n"@
    }
}

pub open spec fn links_section(cts: Seq<Seq<char>>) -> Seq<char> {
    "    <div class=\"section\">\n"@ + "        <h2>Template Variations</h2>\n"@ + "        <div class=\"links\">\n"@
        + (if cts.len() == 0 {
        "            <a href=\"/sample-page.html\">Sample Page (Web Page)</a>\n"@
    } else {
        link_lines(cts)
    }) + "        </div>\n"@ + "    </div>\n"@
}

pub open spec fn swatch(path: Seq<char>, value: Seq<char>) -> Seq<char> {
    "            <div class=\"swatch\">\n                <div class=\"swatch-color\" style=\"background: "@ + value
        + ";\"></div>\n                <div class=\"swatch-info\">\n                    <div class=\"swatch-name\">"@
        + css_var_spec(path, None) + "</div>\n                    <div class=\"swatch-value\">"@ + value
        + "</div>\n                </div>\n            </div>\n"@
}

pub open spec fn swatches(es: Seq<(Seq<char>, Seq<char>)>) -> Seq<char>
    decreases es.len(),
{
    if es.len() == 0 {
        Seq::empty()
    } else {
        swatches(es.drop_last()) + swatch(es.last().0, es.last().1)
    }
}

pub open spec fn colors_section(es: Seq<(Seq<char>, Seq<char>)>) -> Seq<char> {
    if es.len() == 0 {
        Seq::empty()
    } else {
        "    <div class=\"section\">\n"@ + "        <h2>Colors</h2>\n"@ + "        <div class=\"swatch-grid\">\n"@ + swatches(es)
            + "        </div>\n"@ + "    </div>\n"@
    }
}

pub open spec fn specimen(path: Seq<char>, style: Seq<char>) -> Seq<char> {
    "        <div class=\"type-specimen\">\n            <div class=\"type-label\">"@ + css_var_spec(path, None)
        + "</div>\n            <div style=\""@ + style + "\">"@ + SAMPLE_TEXT@ + "</div>\n        </div>\n"@
}

pub open spec fn specimens(es: Seq<(Seq<char>, Seq<char>)>) -> Seq<char>
    decreases es.len(),
{
    if es.len() == 0 {
        Seq::empty()
    } else {
        specimens(es.drop_last()) + specimen(es.last().0, es.last().1)
    }
}

pub open spec fn typography_section(es: Seq<(Seq<char>, Seq<char>)>) -> Seq<char> {
    if es.len() == 0 {
        Seq::empty()
    } else {
        "    <div class=\"section\">\n"@ + "        <h2>Typography</h2>\n"@ + specimens(es) + "    </div>\n"@
    }
}

pub open spec fn spacing_bar(path: Seq<char>, value: Seq<char>) -> Seq<char> {
    "        <div class=\"spacing-bar\">\n            <div class=\"spacing-label\" style=\"min-width: 12rem;\">"@
        + css_var_spec(path, None) + "</div>\n            <div class=\"spacing-visual\" style=\"width: "@ + value
        + ";\"></div>\n            <div class=\"spacing-label\">"@ + value + "</div>\n        </div>\n"@
}

pub open spec fn spacing_bars(es: Seq<(Seq<char>, Seq<char>)>) -> Seq<char>
    decreases es.len(),
{
    if es.len() == 0 {
        Seq::empty()
    } else {
        spacing_bars(es.drop_last()) + spacing_bar(es.last().0, es.last().1)
    }
}

pub open spec fn dimensions_section(es: Seq<(Seq<char>, Seq<char>)>) -> Seq<char> {
    if es.len() == 0 {
        Seq::empty()
    } else {
        "    <div class=\"section\">\n"@ + "        <h2>Spacing / Dimensions</h2>\n"@ + spacing_bars(es) + "    </div>\n"@
    }
}

/// The whole preview index page.
pub open spec fn preview_index_spec(theme_name: Seq<char>, ts: Seq<FlatV>, cts: Seq<Seq<char>>) -> Seq<char> {
    PREVIEW_HEAD@ + theme_name + "</h1>\n"@ + links_section(cts) + colors_section(color_entries(ts))
        + typography_section(typography_entries(ts)) + dimensions_section(dimension_entries(ts)) + "</body>\n"@
        + "</html>\n"@
}


// ---------------------------------------------------------------------------
// Executable
// ---------------------------------------------------------------------------

fn push_str(out: &mut String, s: &str)
    ensures
        final(out)@ == old(out)@ + s@,
{
    out.append(s);
}

/// The views of a list of string pairs.
pub open spec fn pair_views(v: Seq<(String, String)>) -> Seq<(Seq<char>, Seq<char>)> {
    v.map_values(|p: (String, String)| (p.0@, p.1@))
}

fn push_family(style: &mut String, m: &Vec<(String, Json)>)
    ensures
        final(style)@ == old(style)@ + family_part(json_obj_view(m@)),
{
    proof {
        reveal_strlit("fontFamily");
    }
    let ghost s0 = style@;
    match get_str_member(m, "fontFamily") {
        Some(f) => {
            push_str(style, "font-family: ");
            push_str(style, f);
            push_str(style, "; ");
            assert(style@ =~= s0 + ("font-family: "@ + f@ + "; "@));
        },
        None => {
            assert(style@ =~= s0 + Seq::<char>::empty());
        },
    }
}

fn push_size(style: &mut String, m: &Vec<(String, Json)>)
    ensures
        final(style)@ == old(style)@ + size_part(json_obj_view(m@)),
{
    proof {
        reveal_strlit("fontSize");
        reveal_strlit("value");
        reveal_strlit("unit");
    }
    let ghost s0 = style@;
    match get_member(m, "fontSize") {
        Some(Json::String(sz)) => {
            push_str(style, "font-size: ");
            push_str(style, sz.as_str());
            push_str(style, "; ");
            assert(style@ =~= s0 + ("font-size: "@ + sz@ + "; "@));
        },
        Some(Json::Object(o)) => {
            push_str(style, "font-size: ");
            let v = match get_member(o, "value") {
                Some(Json::Number(n)) => n.display.as_str(),
                _ => "16",
            };
            push_str(style, v);
            let u = match get_str_member(o, "unit") {
                Some(u) => u,
                None => "px",
            };
            push_str(style, u);
            push_str(style, "; ");
            assert(style@ =~= s0 + ("font-size: "@ + v@ + u@ + "; "@));
        },
        _ => {
            assert(style@ =~= s0 + Seq::<char>::empty());
        },
    }
}

fn push_weight_height(style: &mut String, m: &Vec<(String, Json)>)
    ensures
        final(style)@ == old(style)@ + weight_part(json_obj_view(m@)) + height_part(json_obj_view(m@)),
{
    proof {
        reveal_strlit("fontWeight");
        reveal_strlit("lineHeight");
    }
    let ghost s0 = style@;
    match get_member(m, "fontWeight") {
        Some(Json::Number(n)) => {
            push_str(style, "font-weight: ");
            push_str(style, n.trunc.as_str());
            push_str(style, "; ");
            assert(style@ =~= s0 + ("font-weight: "@ + n.trunc@ + "; "@));
        },
        _ => {
            assert(style@ =~= s0 + Seq::<char>::empty());
        },
    }
    let ghost s1 = style@;
    match get_member(m, "lineHeight") {
        Some(Json::Number(n)) => {
            push_str(style, "line-height: ");
            push_str(style, n.display.as_str());
            push_str(style, "; ");
            assert(style@ =~= s1 + ("line-height: "@ + n.display@ + "; "@));
        },
        _ => {
            assert(style@ =~= s1 + Seq::<char>::empty());
        },
    }
    assert(style@ =~= s0 + weight_part(json_obj_view(m@)) + height_part(json_obj_view(m@)));
}

/// The inline style of a typography specimen.
fn typo_style_of(v: &TokenValue) -> (r: String)
    ensures
        r@ == typo_style(v@),
{
    match v {
        TokenValue::Object(m) => {
            let mut style = String::new();
            push_family(&mut style, m);
            push_size(&mut style, m);
            push_weight_height(&mut style, m);
            assert(style@ =~= typo_style(v@));
            style
        },
        _ => String::new(),
    }
}

/// A dimension token's value as CSS.
fn dim_text_of(v: &TokenValue) -> (r: String)
    ensures
        r@ == dim_text(v@),
{
    match v {
        TokenValue::String(s) => s.clone(),
        TokenValue::Number(n) => {
            let mut r = number_inline_text(n);
            push_str(&mut r, "px");
            r
        },
        TokenValue::Object(m) => {
            proof {
                reveal_strlit("value");
                reveal_strlit("unit");
            }
            let mut r = match get_member(m, "value") {
                Some(Json::Number(n)) => number_inline_text(n),
                _ => "0".to_owned(),
            };
            match get_str_member(m, "unit") {
                Some(u) => push_str(&mut r, u),
                None => push_str(&mut r, "px"),
            }
            r
        },
        _ => String::new(),
    }
}

fn type_is(t: &FlatToken, name: &str) -> (b: bool)
    ensures
        b == (t@.token_type == Some(name@)),
{
    match &t.token_type {
        Some(ty) => str_eq(ty.as_str(), name),
        None => false,
    }
}

/// The colour, typography and dimension entries of the tokens.
fn categorize(tokens: &Vec<FlatToken>) -> (r: (Vec<(String, String)>, Vec<(String, String)>, Vec<(String, String)>))
    ensures
        pair_views(r.0@) == color_entries(flat_views(tokens@)),
        pair_views(r.1@) == typography_entries(flat_views(tokens@)),
        pair_views(r.2@) == dimension_entries(flat_views(tokens@)),
{
    let ghost ts = flat_views(tokens@);
    let mut colors: Vec<(String, String)> = Vec::new();
    let mut typography: Vec<(String, String)> = Vec::new();
    let mut dimensions: Vec<(String, String)> = Vec::new();
    let mut i: usize = 0;
    while i < tokens.len()
        invariant
            i <= tokens@.len(),
            ts == flat_views(tokens@),
            pair_views(colors@) == color_entries(ts.take(i as int)),
            pair_views(typography@) == typography_entries(ts.take(i as int)),
            pair_views(dimensions@) == dimension_entries(ts.take(i as int)),
        decreases tokens@.len() - i,
    {
        proof {
            assert(ts.take(i + 1).drop_last() =~= ts.take(i as int));
        }
        let t = &tokens[i];
        let ghost c0 = pair_views(colors@);
        let ghost t0 = pair_views(typography@);
        let ghost d0 = pair_views(dimensions@);
        if type_is(t, "color") {
            match &t.value {
                TokenValue::String(v) => {
                    colors.push((t.path.clone(), v.clone()));
                    assert(pair_views(colors@) =~= c0 + seq![(t.path@, v@)]);
                },
                _ => {
                    assert(pair_views(colors@) =~= c0 + Seq::<(Seq<char>, Seq<char>)>::empty());
                },
            }
        } else {
            assert(pair_views(colors@) =~= c0 + Seq::<(Seq<char>, Seq<char>)>::empty());
        }
        if type_is(t, "typography") {
            let st = typo_style_of(&t.value);
            typography.push((t.path.clone(), st));
            assert(pair_views(typography@) =~= t0 + seq![(t@.path, typo_style(t@.value))]);
        } else {
            assert(pair_views(typography@) =~= t0 + Seq::<(Seq<char>, Seq<char>)>::empty());
        }
        if type_is(t, "dimension") {
            let dv = dim_text_of(&t.value);
            if !dv.as_str().is_empty() {
                let ghost dvv = dv@;
                dimensions.push((t.path.clone(), dv));
                assert(pair_views(dimensions@) =~= d0 + seq![(t@.path, dvv)]);
            } else {
                assert(pair_views(dimensions@) =~= d0 + Seq::<(Seq<char>, Seq<char>)>::empty());
            }
        } else {
            assert(pair_views(dimensions@) =~= d0 + Seq::<(Seq<char>, Seq<char>)>::empty());
        }
        i = i + 1;
    }
    assert(ts.take(tokens@.len() as int) =~= ts);
    (colors, typography, dimensions)
}

/// The URL slug of a content type.
pub fn content_type_slug(ct: &str) -> (r: String)
    ensures
        r@ == slug(ct@),
{
    let lower = to_lowercase(ct);
    replace_str(lower.as_str(), " ", "-")
}

fn push_links_section(html: &mut String, cts: &Vec<String>)
    ensures
        final(html)@ == old(html)@ + links_section(cts@.map_values(|c: String| c@)),
{
    let ghost cv = cts@.map_values(|c: String| c@);
    let ghost start = html@;
    push_str(html, "    <div class=\"section\">\n");
    push_str(html, "        <h2>Template Variations</h2>\n");
    push_str(html, "        <div class=\"links\">\n");
    let ghost mid = html@;
    if cts.len() == 0 {
        push_str(html, "            <a href=\"/sample-page.html\">Sample Page (Web Page)</a>\n");
    } else {
        let mut i: usize = 0;
        while i < cts.len()
            invariant
                i <= cts@.len(),
                cv == cts@.map_values(|c: String| c@),
                html@ == mid + link_lines(cv.take(i as int)),
            decreases cts@.len() - i,
        {
            proof {
                assert(cv.take(i + 1).drop_last() =~= cv.take(i as int));
            }
            let ghost before = html@;
            let sl = content_type_slug(cts[i].as_str());
            push_str(html, "            <a href=\"/");
            push_str(html, sl.as_str());
            push_str(html, ".html\">");
            push_str(html, cts[i].as_str());
            push_str(html, "</a>\n");
            assert(html@ =~= before + "            <a href=\"/"@ + slug(cv[i as int]) + ".html\">"@ + cv[i as int] + "</a>\n"@);
            i = i + 1;
        }
        assert(cv.take(cts@.len() as int) =~= cv);
    }
    push_str(html, "        </div>\n");
    push_str(html, "    </div>\n");
    assert(html@ =~= start + links_section(cv));
}

fn push_colors_section(html: &mut String, es: &Vec<(String, String)>)
    ensures
        final(html)@ == old(html)@ + colors_section(pair_views(es@)),
{
    let ghost ev = pair_views(es@);
    let ghost start = html@;
    if es.len() == 0 {
        assert(html@ =~= start + colors_section(ev));
        return;
    }
    push_str(html, "    <div class=\"section\">\n");
    push_str(html, "        <h2>Colors</h2>\n");
    push_str(html, "        <div class=\"swatch-grid\">\n");
    let ghost mid = html@;
    let mut i: usize = 0;
    while i < es.len()
        invariant
            i <= es@.len(),
            ev == pair_views(es@),
            html@ == mid + swatches(ev.take(i as int)),
        decreases es@.len() - i,
    {
        proof {
            assert(ev.take(i + 1).drop_last() =~= ev.take(i as int));
        }
        let ghost before = html@;
        let var_name = path_to_css_var_name(es[i].0.as_str());
        let value = es[i].1.as_str();
        push_str(html, "            <div class=\"swatch\">\n                <div class=\"swatch-color\" style=\"background: ");
        push_str(html, value);
        push_str(html, ";\"></div>\n                <div class=\"swatch-info\">\n                    <div class=\"swatch-name\">");
        push_str(html, var_name.as_str());
        push_str(html, "</div>\n                    <div class=\"swatch-value\">");
        push_str(html, value);
        push_str(html, "</div>\n                </div>\n            </div>\n");
        assert(html@ =~= before + swatch(ev[i as int].0, ev[i as int].1));
        i = i + 1;
    }
    assert(ev.take(es@.len() as int) =~= ev);
    push_str(html, "        </div>\n");
    push_str(html, "    </div>\n");
    assert(html@ =~= start + colors_section(ev));
}

fn push_typography_section(html: &mut String, es: &Vec<(String, String)>)
    ensures
        final(html)@ == old(html)@ + typography_section(pair_views(es@)),
{
    let ghost ev = pair_views(es@);
    let ghost start = html@;
    if es.len() == 0 {
        assert(html@ =~= start + typography_section(ev));
        return;
    }
    push_str(html, "    <div class=\"section\">\n");
    push_str(html, "        <h2>Typography</h2>\n");
    let ghost mid = html@;
    let mut i: usize = 0;
    while i < es.len()
        invariant
            i <= es@.len(),
            ev == pair_views(es@),
            html@ == mid + specimens(ev.take(i as int)),
        decreases es@.len() - i,
    {
        proof {
            assert(ev.take(i + 1).drop_last() =~= ev.take(i as int));
        }
        let ghost before = html@;
        let var_prefix = path_to_css_var_name(es[i].0.as_str());
        push_str(html, "        <div class=\"type-specimen\">\n            <div class=\"type-label\">");
        push_str(html, var_prefix.as_str());
        push_str(html, "</div>\n            <div style=\"");
        push_str(html, es[i].1.as_str());
        push_str(html, "\">");
        push_str(html, SAMPLE_TEXT);
        push_str(html, "</div>\n        </div>\n");
        assert(html@ =~= before + specimen(ev[i as int].0, ev[i as int].1));
        i = i + 1;
    }
    assert(ev.take(es@.len() as int) =~= ev);
    push_str(html, "    </div>\n");
    assert(html@ =~= start + typography_section(ev));
}

fn push_dimensions_section(html: &mut String, es: &Vec<(String, String)>)
    ensures
        final(html)@ == old(html)@ + dimensions_section(pair_views(es@)),
{
    let ghost ev = pair_views(es@);
    let ghost start = html@;
    if es.len() == 0 {
        assert(html@ =~= start + dimensions_section(ev));
        return;
    }
    push_str(html, "    <div class=\"section\">\n");
    push_str(html, "        <h2>Spacing / Dimensions</h2>\n");
    let ghost mid = html@;
    let mut i: usize = 0;
    while i < es.len()
        invariant
            i <= es@.len(),
            ev == pair_views(es@),
            html@ == mid + spacing_bars(ev.take(i as int)),
        decreases es@.len() - i,
    {
        proof {
            assert(ev.take(i + 1).drop_last() =~= ev.take(i as int));
        }
        let ghost before = html@;
        let var_name = path_to_css_var_name(es[i].0.as_str());
        let value = es[i].1.as_str();
        push_str(html, "        <div class=\"spacing-bar\">\n            <div class=\"spacing-label\" style=\"min-width: 12rem;\">");
        push_str(html, var_name.as_str());
        push_str(html, "</div>\n            <div class=\"spacing-visual\" style=\"width: ");
        push_str(html, value);
        push_str(html, ";\"></div>\n            <div class=\"spacing-label\">");
        push_str(html, value);
        push_str(html, "</div>\n        </div>\n");
        assert(html@ =~= before + spacing_bar(ev[i as int].0, ev[i as int].1));
        i = i + 1;
    }
    assert(ev.take(es@.len() as int) =~= ev);
    push_str(html, "    </div>\n");
    assert(html@ =~= start + dimensions_section(ev));
}

/// The preview index page: colour swatches, typography specimens and the
/// spacing scale of the flattened tokens, each section in the order the tokens are
/// given (`DesignTokens::flatten` gives them by path), with links to one sample page
/// per content type.
pub fn generate_preview_index(theme_name: &str, tokens: &Vec<FlatToken>, content_types: &Vec<String>) -> (html: String)
    ensures
        html@ == preview_index_spec(
            theme_name@,
            flat_views(tokens@),
            content_types@.map_values(|c: String| c@),
        ),
{
    let (colors, typography, dimensions) = categorize(tokens);
    let mut html = String::new();
    let ghost h0 = html@;
    push_str(&mut html, PREVIEW_HEAD);
    push_str(&mut html, theme_name);
    push_str(&mut html, "</h1>\n");
    push_links_section(&mut html, content_types);
    push_colors_section(&mut html, &colors);
    push_typography_section(&mut html, &typography);
    push_dimensions_section(&mut html, &dimensions);
    push_str(&mut html, "</body>\n");
    push_str(&mut html, "</html>\n");
    assert(html@ =~= preview_index_spec(
        theme_name@,
        flat_views(tokens@),
        content_types@.map_values(|c: String| c@),
    ));
    html
}

} // verus!
