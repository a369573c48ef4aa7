//! The variables a page template sees.
use vstd::prelude::*;
use crate::json::{Json, JsonV, json_view, json_seq_view, json_obj_view, lemma_json_seq_view_push,
    lemma_json_obj_view_push};

verus! {

/// Metadata for building a page's template context.
#[derive(Debug, Clone)]
pub struct PageContext {
    pub title: String,
    pub content_html: String,
    pub json_ld: String,
    pub site_title: String,
    pub page_url: String,
    pub page_uri: String,
    pub rdfa_attrs: String,
    /// The critical CSS to inline for the page's template.
    pub critical_css: String,
    pub date: Option<String>,
    pub author: Option<String>,
    pub description: Option<String>,
    pub tags: Option<Vec<String>>,
}

/// A list of strings as JSON strings.
pub open spec fn strings_view(s: Seq<String>) -> Seq<JsonV> {
    Seq::new(s.len(), |i: int| JsonV::String(s[i]@))
}

/// Appends `key` with `value` when the value is present.
pub open spec fn push_opt(
    m: Seq<(Seq<char>, JsonV)>,
    key: Seq<char>,
    value: Option<JsonV>,
) -> Seq<(Seq<char>, JsonV)> {
    match value {
        Some(v) => m.push((key, v)),
        None => m,
    }
}

pub open spec fn opt_string(o: Option<String>) -> Option<JsonV> {
    match o {
        Some(s) => Some(JsonV::String(s@)),
        None => None,
    }
}

pub open spec fn opt_strings(o: Option<Vec<String>>) -> Option<JsonV> {
    match o {
        Some(v) => Some(JsonV::Array(strings_view(v@))),
        None => None,
    }
}

/// The template variables of a page, in the order they are set: title, content, JSON-LD,
/// URL, URI, RDFa attributes, critical CSS, the site configuration (its title), then date, author,
/// description and tags where the page has them.
pub open spec fn page_context_spec(p: PageContext) -> Seq<(Seq<char>, JsonV)> {
    let base = seq![
        ("title"@, JsonV::String(p.title@)),
        ("content"@, JsonV::String(p.content_html@)),
        ("json_ld"@, JsonV::String(p.json_ld@)),
        ("page_url"@, JsonV::String(p.page_url@)),
        ("page_uri"@, JsonV::String(p.page_uri@)),
        ("rdfa_attrs"@, JsonV::String(p.rdfa_attrs@)),
        ("critical_css"@, JsonV::String(p.critical_css@)),
        ("config"@, JsonV::Object(seq![("title"@, JsonV::String(p.site_title@))])),
    ];
    push_opt(
        push_opt(
            push_opt(push_opt(base, "date"@, opt_string(p.date)), "author"@, opt_string(p.author)),
            "description"@,
            opt_string(p.description),
        ),
        "tags"@,
        opt_strings(p.tags),
    )
}

/// A list of strings as JSON string values.
pub fn strings_to_json(v: &Vec<String>) -> (r: Vec<Json>)
    ensures
        json_seq_view(r@) == strings_view(v@),
{
    let mut r: Vec<Json> = Vec::new();
    let mut i: usize = 0;
    while i < v.len()
        invariant
            i <= v.len(),
            json_seq_view(r@) == strings_view(v@.take(i as int)),
        decreases v.len() - i,
    {
        let x = Json::String(v[i].clone());
        proof {
            lemma_json_seq_view_push(r@, x);
            assert(strings_view(v@.take(i + 1)) =~= strings_view(v@.take(i as int)).push(
                JsonV::String(v@[i as int]@),
            ));
        }
        r.push(x);
        i = i + 1;
    }
    proof {
        assert(v@.take(v.len() as int) =~= v@);
    }
    r
}

fn push_entry(m: &mut Vec<(String, Json)>, key: &str, value: Json)
    ensures
        json_obj_view(final(m)@) == json_obj_view(old(m)@).push((key@, json_view(value))),
{
    let e = (key.to_string(), value);
    proof {
        lemma_json_obj_view_push(m@, e);
    }
    m.push(e);
}

fn push_opt_string(m: &mut Vec<(String, Json)>, key: &str, value: &Option<String>)
    ensures
        json_obj_view(final(m)@) == push_opt(json_obj_view(old(m)@), key@, opt_string(*value)),
{
    if let Some(s) = value {
        push_entry(m, key, Json::String(s.clone()));
    }
}

/// Builds the variables a page template is rendered with, as named JSON values.
pub fn build_page_context(page: &PageContext) -> (r: Vec<(String, Json)>)
    ensures
        json_obj_view(r@) == page_context_spec(*page),
{
    let mut m: Vec<(String, Json)> = Vec::new();
    push_entry(&mut m, "title", Json::String(page.title.clone()));
    push_entry(&mut m, "content", Json::String(page.content_html.clone()));
    push_entry(&mut m, "json_ld", Json::String(page.json_ld.clone()));
    push_entry(&mut m, "page_url", Json::String(page.page_url.clone()));
    push_entry(&mut m, "page_uri", Json::String(page.page_uri.clone()));
    push_entry(&mut m, "rdfa_attrs", Json::String(page.rdfa_attrs.clone()));
    push_entry(&mut m, "critical_css", Json::String(page.critical_css.clone()));
    let mut config: Vec<(String, Json)> = Vec::new();
    push_entry(&mut config, "title", Json::String(page.site_title.clone()));
    push_entry(&mut m, "config", Json::Object(config));
    push_opt_string(&mut m, "date", &page.date);
    push_opt_string(&mut m, "author", &page.author);
    push_opt_string(&mut m, "description", &page.description);
    match &page.tags {
        Some(t) => {
            let a = strings_to_json(t);
            push_entry(&mut m, "tags", Json::Array(a));
        },
        None => {},
    }
    proof {
        assert(json_obj_view(Seq::<(String, Json)>::empty()) =~= Seq::<(Seq<char>, JsonV)>::empty());
    }
    m
}

} // verus!
