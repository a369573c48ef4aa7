//! JSON-LD for pages: from frontmatter fields, or from all the triples of the
//! page's named graph.
use vstd::prelude::*;
use crate::json::{Json, JsonV, json_pretty_text, json_to_string_pretty};
use crate::mappings::{all_prefix_pairs, compact_with, find_name, MappingRegistry};
use crate::merge::{insert_member, obj_insert};
use crate::text::{
    chars_of, find, lemma_find_from_result, push_char, starts_with, str_eq, str_starts_with, string_of_range,
    strip_prefix, strip_suffix, trim_end_char, trim_end_char_exec, trim_start_char, trim_start_char_exec,
};

verus! {

/// `base/path`, without doubled slashes at the join.
pub open spec fn page_id_spec(base_url: Seq<char>, path: Seq<char>) -> Seq<char> {
    trim_end_char(base_url, '/') + seq!['/'] + trim_start_char(path, '/')
}

fn page_id(base_url: &str, path: &str) -> (r: String)
    ensures
        r@ == page_id_spec(base_url@, path@),
{
    let mut r = trim_end_char_exec(base_url, '/');
    push_char(&mut r, '/');
    let rest = trim_start_char_exec(path, '/');
    r.append(rest.as_str());
    r
}

/// The schema.org type name of a content type (the type itself when unknown).
pub open spec fn schema_type_spec(ct: Option<Seq<char>>) -> Seq<char> {
    match ct {
        None => "WebPage"@,
        Some(c) => if c == "Blog Post"@ || c == "BlogPosting"@ {
            "BlogPosting"@
        } else if c == "Article"@ {
            "Article"@
        } else if c == "How-To Guide"@ || c == "HowTo"@ {
            "HowTo"@
        } else if c == "FAQ Page"@ || c == "FAQPage"@ {
            "FAQPage"@
        } else if c == "Event"@ {
            "Event"@
        } else if c == "Web Page"@ || c == "WebPage"@ {
            "WebPage"@
        } else {
            c
        },
    }
}

/// A `Person` object with a name.
pub open spec fn person(name: Seq<char>) -> JsonV {
    JsonV::Object(seq![("@type"@, JsonV::String("Person"@)), ("name"@, JsonV::String(name))])
}

/// The JSON-LD of a page from its frontmatter fields.
pub open spec fn jsonld_spec(
    base_url: Seq<char>,
    page_path: Seq<char>,
    title: Option<Seq<char>>,
    date: Option<Seq<char>>,
    author: Option<Seq<char>>,
    content_type: Option<Seq<char>>,
) -> JsonV {
    JsonV::Object(jsonld_members(base_url, page_path, title, date, author, content_type))
}

/// The members of a page's JSON-LD object, in key order.
pub open spec fn jsonld_members(
    base_url: Seq<char>,
    page_path: Seq<char>,
    title: Option<Seq<char>>,
    date: Option<Seq<char>>,
    author: Option<Seq<char>>,
    content_type: Option<Seq<char>>,
) -> Seq<(Seq<char>, JsonV)> {
    (
        seq![
            ("@context"@, JsonV::String("https://schema.org/"@)),
            ("@id"@, JsonV::String(page_id_spec(base_url, page_path))),
            ("@type"@, JsonV::String(schema_type_spec(content_type))),
        ] + match author {
            Some(a) => seq![("author"@, person(a))],
            None => Seq::empty(),
        } + match date {
            Some(d) => seq![("datePublished"@, JsonV::String(d))],
            None => Seq::empty(),
        } + match title {
            Some(t) => seq![("name"@, JsonV::String(t))],
            None => Seq::empty(),
        }
    )
}

fn schema_type(ct: Option<&str>) -> (r: String)
    ensures
        r@ == schema_type_spec(match ct {
            Some(c) => Some(c@),
            None => None,
        }),
{
    match ct {
        None => "WebPage".to_owned(),
        Some(c) => if str_eq(c, "Blog Post") || str_eq(c, "BlogPosting") {
            "BlogPosting".to_owned()
        } else if str_eq(c, "Article") {
            "Article".to_owned()
        } else if str_eq(c, "How-To Guide") || str_eq(c, "HowTo") {
            "HowTo".to_owned()
        } else if str_eq(c, "FAQ Page") || str_eq(c, "FAQPage") {
            "FAQPage".to_owned()
        } else if str_eq(c, "Event") {
            "Event".to_owned()
        } else if str_eq(c, "Web Page") || str_eq(c, "WebPage") {
            "WebPage".to_owned()
        } else {
            c.to_owned()
        },
    }
}

fn person_json(name: &str) -> (r: Json)
    ensures
        r@ == person(name@),
{
    let members = vec![
        ("@type".to_owned(), Json::String("Person".to_owned())),
        ("name".to_owned(), Json::String(name.to_owned())),
    ];
    let r = Json::Object(members);
    proof {
        crate::json::lemma_json_obj_view_len(members@);
        assert(crate::json::json_obj_view(members@) =~= seq![
            ("@type"@, JsonV::String("Person"@)),
            ("name"@, JsonV::String(name@)),
        ]);
    }
    r
}

/// Build a JSON-LD object for a page from its frontmatter fields.
pub fn build_jsonld(
    base_url: &str,
    page_path: &str,
    title: Option<&str>,
    date: Option<&str>,
    author: Option<&str>,
    content_type: Option<&str>,
) -> (r: Json)
    ensures
        r@ == jsonld_spec(
            base_url@,
            page_path@,
            match title {
                Some(t) => Some(t@),
                None => None,
            },
            match date {
                Some(d) => Some(d@),
                None => None,
            },
            match author {
                Some(a) => Some(a@),
                None => None,
            },
            match content_type {
                Some(c) => Some(c@),
                None => None,
            },
        ),
{
    let mut members: Vec<(String, Json)> = Vec::new();
    let e1 = ("@context".to_owned(), Json::String("https://schema.org/".to_owned()));
    let e2 = ("@id".to_owned(), Json::String(page_id(base_url, page_path)));
    let e3 = ("@type".to_owned(), Json::String(schema_type(content_type)));
    proof {
        assert(crate::json::json_obj_view(members@) =~= Seq::<(Seq<char>, JsonV)>::empty());
        crate::json::lemma_json_obj_view_push(members@, e1);
        crate::json::lemma_json_obj_view_push(members@.push(e1), e2);
        crate::json::lemma_json_obj_view_push(members@.push(e1).push(e2), e3);
    }
    members.push(e1);
    members.push(e2);
    members.push(e3);
    match author {
        Some(a) => {
            let e = ("author".to_owned(), person_json(a));
            proof {
                crate::json::lemma_json_obj_view_push(members@, e);
            }
            members.push(e);
        },
        None => {},
    }
    match date {
        Some(d) => {
            let e = ("datePublished".to_owned(), Json::String(d.to_owned()));
            proof {
                crate::json::lemma_json_obj_view_push(members@, e);
            }
            members.push(e);
        },
        None => {},
    }
    match title {
        Some(t) => {
            let e = ("name".to_owned(), Json::String(t.to_owned()));
            proof {
                crate::json::lemma_json_obj_view_push(members@, e);
            }
            members.push(e);
        },
        None => {},
    }
    assert(crate::json::json_obj_view(members@) =~= jsonld_members(
        base_url@,
        page_path@,
        match title {
            Some(t) => Some(t@),
            None => None,
        },
        match date {
            Some(d) => Some(d@),
            None => None,
        },
        match author {
            Some(a) => Some(a@),
            None => None,
        },
        match content_type {
            Some(c) => Some(c@),
            None => None,
        },
    ));
    Json::Object(members)
}


// ---------------------------------------------------------------------------
// From the page graph
// ---------------------------------------------------------------------------

/// One row of the query for a page's triples: predicate and object as the
/// query gives them (IRIs in angle brackets), and the object (without angle
/// brackets) read as a JSON number when it reads as one: as a 64-bit integer,
/// else as a double (`null` when the double is not finite).
pub struct GraphRow {
    pub p: Option<String>,
    pub o: Option<String>,
    pub o_number: Option<Json>,
}

/// The mathematical value of a row.
pub open spec fn row_view(r: GraphRow) -> (Option<Seq<char>>, Option<Seq<char>>, Option<JsonV>) {
    (
        match r.p {
            Some(s) => Some(s@),
            None => None,
        },
        match r.o {
            Some(s) => Some(s@),
            None => None,
        },
        match r.o_number {
            Some(j) => Some(j@),
            None => None,
        },
    )
}

/// `s` without surrounding angle brackets, when it has both.
pub open spec fn strip_brackets(s: Seq<char>) -> Seq<char> {
    match strip_prefix(s, seq!['<']) {
        Some(r) => match strip_suffix(r, seq!['>']) {
            Some(x) => x,
            None => s,
        },
        None => s,
    }
}

/// Remove the angle brackets around an IRI as a query result writes it.
pub fn strip_angle_brackets(s: &str) -> (r: String)
    ensures
        r@ == strip_brackets(s@),
{
    let v = chars_of(s);
    proof {
        reveal_strlit("<");
        reveal_strlit(">");
        assert("<"@ =~= seq!['<']);
        assert(">"@ =~= seq!['>']);
    }
    if v.len() >= 2 && v[0] == '<' && v[v.len() - 1] == '>' {
        proof {
            assert(v@.subrange(0, 1) =~= seq!['<']);
            assert(starts_with(v@, seq!['<']));
            let r = v@.subrange(1, v@.len() as int);
            assert(r.subrange(r.len() - 1, r.len() as int) =~= seq!['>']);
            assert(r.subrange(0, r.len() - 1) =~= v@.subrange(1, v@.len() - 1));
        }
        string_of_range(&v, 1, v.len() - 1)
    } else {
        proof {
            if starts_with(v@, seq!['<']) {
                let r = v@.subrange(1, v@.len() as int);
                if ends_with_gt(r) {
                    assert(r.subrange(r.len() - 1, r.len() as int)[0] == v@[v@.len() - 1]);
                    assert(v@.subrange(0, 1)[0] == v@[0]);
                }
            }
        }
        s.to_owned()
    }
}

spec fn ends_with_gt(r: Seq<char>) -> bool {
    crate::text::ends_with(r, seq!['>'])
}

/// `rdf:type`, as the two forms of its IRI.
pub open spec fn is_rdf_type(pred: Seq<char>) -> bool {
    pred == "http://www.w3.org/1999/02/22-rdf-syntax-ns#type"@
        || pred == "https://www.w3.org/1999/02/22-rdf-syntax-ns#type"@
}

/// An IRI as a JSON-LD key or type: the local name in the default vocabulary,
/// else its compact form (recording the prefix used), else the IRI itself.
pub open spec fn compact_jsonld(
    iri: Seq<char>,
    vocab: Seq<char>,
    reg: MappingRegistry,
    used: Seq<(Seq<char>, JsonV)>,
) -> (Seq<char>, Seq<(Seq<char>, JsonV)>) {
    let pairs = all_prefix_pairs(reg.extra_prefixes.pairs());
    match strip_prefix(iri, vocab) {
        Some(local) => (local, used),
        None => {
            let c = compact_with(pairs, iri);
            if c != iri {
                let used2 = match find(c, seq![':']) {
                    Some(k) => match find_name(pairs, c.take(k), 0) {
                        Some(i) => obj_insert(used, c.take(k), JsonV::String(pairs[i].1)),
                        None => used,
                    },
                    None => used,
                };
                (c, used2)
            } else {
                (iri, used)
            }
        },
    }
}

/// A literal as a typed JSON value: its number reading, else a boolean, else a string.
pub open spec fn typed_value(ov: Seq<char>, num: Option<JsonV>) -> JsonV {
    match num {
        Some(j) => j,
        None => if ov == "true"@ {
            JsonV::Bool(true)
        } else if ov == "false"@ {
            JsonV::Bool(false)
        } else {
            JsonV::String(ov)
        },
    }
}

/// The object members and used prefixes after one row.
pub open spec fn ld_step(
    st: (Seq<(Seq<char>, JsonV)>, Seq<(Seq<char>, JsonV)>),
    row: (Option<Seq<char>>, Option<Seq<char>>, Option<JsonV>),
    vocab: Seq<char>,
    reg: MappingRegistry,
) -> (Seq<(Seq<char>, JsonV)>, Seq<(Seq<char>, JsonV)>) {
    match (row.0, row.1) {
        (Some(p), Some(o)) => {
            let pred = strip_brackets(p);
            let ov = strip_brackets(o);
            if starts_with(pred, "urn:geoff:"@) {
                st
            } else if is_rdf_type(pred) {
                let (t, u) = compact_jsonld(ov, vocab, reg, st.1);
                (obj_insert(st.0, "@type"@, JsonV::String(t)), u)
            } else {
                let (k, u) = compact_jsonld(pred, vocab, reg, st.1);
                if k == "author"@ || k == "schema:author"@ {
                    (obj_insert(st.0, k, person(ov)), u)
                } else {
                    (obj_insert(st.0, k, typed_value(ov, row.2)), u)
                }
            }
        },
        _ => st,
    }
}

pub open spec fn ld_rows(
    rows: Seq<(Option<Seq<char>>, Option<Seq<char>>, Option<JsonV>)>,
    vocab: Seq<char>,
    reg: MappingRegistry,
    st0: (Seq<(Seq<char>, JsonV)>, Seq<(Seq<char>, JsonV)>),
) -> (Seq<(Seq<char>, JsonV)>, Seq<(Seq<char>, JsonV)>)
    decreases rows.len(),
{
    if rows.len() == 0 {
        st0
    } else {
        ld_step(ld_rows(rows.drop_last(), vocab, reg, st0), rows.last(), vocab, reg)
    }
}

/// The members of `m` with those of `more` inserted in order.
pub open spec fn insert_all(m: Seq<(Seq<char>, JsonV)>, more: Seq<(Seq<char>, JsonV)>) -> Seq<(Seq<char>, JsonV)>
    decreases more.len(),
{
    if more.len() == 0 {
        m
    } else {
        obj_insert(insert_all(m, more.drop_last()), more.last().0, more.last().1)
    }
}

/// `@context`: the default vocabulary, or an object of it and the prefixes used.
pub open spec fn context_value(vocab: Seq<char>, used: Seq<(Seq<char>, JsonV)>) -> JsonV {
    if used.len() == 0 {
        JsonV::String(vocab)
    } else {
        JsonV::Object(insert_all(obj_insert(Seq::empty(), "@vocab"@, JsonV::String(vocab)), used))
    }
}

/// The JSON-LD of a page from the rows of its graph: `@id`, `@type`, one
/// member per other triple (internal `urn:geoff:` predicates left out;
/// `author` as a `Person`), and `@context`.
pub open spec fn graph_jsonld_spec(
    rows: Seq<(Option<Seq<char>>, Option<Seq<char>>, Option<JsonV>)>,
    base_url: Seq<char>,
    page_url: Seq<char>,
    vocab: Seq<char>,
    reg: MappingRegistry,
) -> JsonV {
    let st0 = (seq![("@id"@, JsonV::String(page_id_spec(base_url, page_url)))], Seq::empty());
    let (obj, used) = ld_rows(rows, vocab, reg, st0);
    JsonV::Object(obj_insert(obj, "@context"@, context_value(vocab, used)))
}

proof fn lemma_find_name_scan(pairs: Seq<(Seq<char>, Seq<char>)>, name: Seq<char>, i: int)
    requires
        0 <= i <= pairs.len(),
        forall|j: int| 0 <= j < i ==> (#[trigger] pairs[j]).0 != name,
    ensures
        find_name(pairs, name, 0) == find_name(pairs, name, i),
    decreases i,
{
    if i > 0 {
        lemma_find_name_scan(pairs, name, i - 1);
        assert(pairs[i - 1].0 != name);
    }
}

/// Compact an IRI for JSON-LD, recording the prefix it used.
fn compact_for_jsonld(iri: &str, vocab: &str, registry: &MappingRegistry, used: &mut Vec<(String, Json)>) -> (r: String)
    ensures
        (r@, crate::json::json_obj_view(final(used)@)) == compact_jsonld(
            iri@,
            vocab@,
            *registry,
            crate::json::json_obj_view(old(used)@),
        ),
{
    if str_starts_with(iri, vocab) {
        let v = chars_of(iri);
        let vl = chars_of(vocab);
        return string_of_range(&v, vl.len(), v.len());
    }
    let compacted = registry.compact_iri(iri);
    if !str_eq(compacted.as_str(), iri) {
        let cv = chars_of(compacted.as_str());
        let colon: Vec<char> = vec![':'];
        assert(colon@ =~= seq![':']);
        proof {
            lemma_find_from_result(cv@, colon@, 0);
        }
        match crate::text::find_exec(&cv, &colon) {
            Some(k) => {
                let prefix = string_of_range(&cv, 0, k);
                let pairs = registry.all_prefixes();
                let ghost ps = all_prefix_pairs(registry.extra_prefixes.pairs());
                let mut i: usize = 0;
                while i < pairs.len() && !str_eq(pairs[i].0, prefix.as_str())
                    invariant
                        i <= pairs@.len(),
                        pairs@.len() == ps.len(),
                        forall|k: int| 0 <= k < pairs@.len() ==> (#[trigger] pairs@[k]).0@ == ps[k].0 && pairs@[k].1@ == ps[k].1,
                        forall|j: int| 0 <= j < i ==> (#[trigger] ps[j]).0 != prefix@,
                    decreases pairs@.len() - i,
                {
                    i = i + 1;
                }
                proof {
                    lemma_find_name_scan(ps, prefix@, i as int);
                }
                if i < pairs.len() {
                    let ns = pairs[i].1.to_owned();
                    insert_member(used, prefix, Json::String(ns));
                }
            },
            None => {},
        }
        return compacted;
    }
    iri.to_owned()
}

/// The typed JSON value of a literal.
fn typed_json(ov: &str, num: &Option<Json>) -> (r: Json)
    ensures
        r@ == typed_value(ov@, match num {
            Some(j) => Some(j@),
            None => None,
        }),
{
    match num {
        Some(j) => j.deep_clone(),
        None => if str_eq(ov, "true") {
            Json::Bool(true)
        } else if str_eq(ov, "false") {
            Json::Bool(false)
        } else {
            Json::String(ov.to_owned())
        },
    }
}

/// Build a JSON-LD object from the rows of a query for all the triples of
/// the page's named graph.  Properties from the default vocabulary use short
/// names; others use prefixed names, whose prefixes go into `@context`.
pub fn build_jsonld_from_graph(
    rows: &Vec<GraphRow>,
    base_url: &str,
    page_url: &str,
    default_vocab: &str,
    registry: &MappingRegistry,
) -> (r: Json)
    ensures
        r@ == graph_jsonld_spec(
            rows@.map_values(|x: GraphRow| row_view(x)),
            base_url@,
            page_url@,
            default_vocab@,
            *registry,
        ),
{
    let ghost rv = rows@.map_values(|x: GraphRow| row_view(x));
    let mut obj: Vec<(String, Json)> = Vec::new();
    let mut used: Vec<(String, Json)> = Vec::new();
    let id = ("@id".to_owned(), Json::String(page_id(base_url, page_url)));
    proof {
        assert(crate::json::json_obj_view(obj@) =~= Seq::<(Seq<char>, JsonV)>::empty());
        assert(crate::json::json_obj_view(used@) =~= Seq::<(Seq<char>, JsonV)>::empty());
        crate::json::lemma_json_obj_view_push(obj@, id);
    }
    obj.push(id);
    let ghost st0 = (crate::json::json_obj_view(obj@), crate::json::json_obj_view(used@));
    assert(st0 == (
        seq![("@id"@, JsonV::String(page_id_spec(base_url@, page_url@)))],
        Seq::<(Seq<char>, JsonV)>::empty(),
    ));
    let mut i: usize = 0;
    while i < rows.len()
        invariant
            i <= rows@.len(),
            rv == rows@.map_values(|x: GraphRow| row_view(x)),
            (crate::json::json_obj_view(obj@), crate::json::json_obj_view(used@)) == ld_rows(
                rv.take(i as int),
                default_vocab@,
                *registry,
                st0,
            ),
        decreases rows@.len() - i,
    {
        proof {
            assert(rv.take(i + 1).drop_last() =~= rv.take(i as int));
            reveal_strlit("urn:geoff:");
        }
        let row = &rows[i];
        match (&row.p, &row.o) {
            (Some(p), Some(o)) => {
                let pred = strip_angle_brackets(p.as_str());
                let ov = strip_angle_brackets(o.as_str());
                if str_starts_with(pred.as_str(), "urn:geoff:") {
                } else if str_eq(pred.as_str(), "http://www.w3.org/1999/02/22-rdf-syntax-ns#type") || str_eq(
                    pred.as_str(),
                    "https://www.w3.org/1999/02/22-rdf-syntax-ns#type",
                ) {
                    let t = compact_for_jsonld(ov.as_str(), default_vocab, registry, &mut used);
                    insert_member(&mut obj, "@type".to_owned(), Json::String(t));
                } else {
                    let k = compact_for_jsonld(pred.as_str(), default_vocab, registry, &mut used);
                    if str_eq(k.as_str(), "author") || str_eq(k.as_str(), "schema:author") {
                        let pj = person_json(ov.as_str());
                        insert_member(&mut obj, k, pj);
                    } else {
                        let v = typed_json(ov.as_str(), &row.o_number);
                        insert_member(&mut obj, k, v);
                    }
                }
            },
            _ => {},
        }
        i = i + 1;
    }
    assert(rv.take(rows@.len() as int) =~= rv);
    let ghost used_v = crate::json::json_obj_view(used@);
    let context = if used.len() == 0 {
        Json::String(default_vocab.to_owned())
    } else {
        let mut ctx: Vec<(String, Json)> = Vec::new();
        proof {
            assert(crate::json::json_obj_view(ctx@) =~= Seq::<(Seq<char>, JsonV)>::empty());
        }
        insert_member(&mut ctx, "@vocab".to_owned(), Json::String(default_vocab.to_owned()));
        let ghost c0 = crate::json::json_obj_view(ctx@);
        proof {
            crate::json::lemma_json_obj_view_len(used@);
        }
        let mut j: usize = 0;
        while j < used.len()
            invariant
                j <= used@.len(),
                used_v == crate::json::json_obj_view(used@),
                used_v.len() == used@.len(),
                forall|k: int| 0 <= k < used@.len() ==> #[trigger] used_v[k] == (used@[k].0@, crate::json::json_view(used@[k].1)),
                crate::json::json_obj_view(ctx@) == insert_all(c0, used_v.take(j as int)),
            decreases used@.len() - j,
        {
            proof {
                assert(used_v.take(j + 1).drop_last() =~= used_v.take(j as int));
            }
            let k = used[j].0.clone();
            let v = used[j].1.deep_clone();
            insert_member(&mut ctx, k, v);
            j = j + 1;
        }
        assert(used_v.take(used@.len() as int) =~= used_v);
        Json::Object(ctx)
    };
    proof {
        crate::json::lemma_json_obj_view_len(used@);
    }
    insert_member(&mut obj, "@context".to_owned(), context);
    Json::Object(obj)
}


/// A JSON-LD value as an HTML `<script>` block, pretty-printed.
pub fn jsonld_script_tag(jsonld: &Json) -> (r: String)
    ensures
        r@ == "<script type=\"application/ld+json\">\n"@ + crate::json::json_pretty_text(jsonld@) + "\n</script>"@,
{
    let mut r = "<script type=\"application/ld+json\">\n".to_owned();
    let text = crate::json::json_to_string_pretty(jsonld);
    r.append(text.as_str());
    r.append("\n</script>");
    r
}


pub open spec fn opt_seq(o: Option<&str>) -> Option<Seq<char>> {
    match o {
        Some(s) => Some(s@),
        None => None,
    }
}

/// A page's JSON-LD as the text put into its page: the rich form built from the page's
/// graph rows when `rich`, else the form built from its frontmatter fields, written as
/// pretty-printed JSON.
pub fn page_json_ld_text(
    rich: bool,
    rows: &Vec<GraphRow>,
    base_url: &str,
    page_url: &str,
    page_output_path: &str,
    default_vocab: &str,
    title: Option<&str>,
    date: Option<&str>,
    author: Option<&str>,
    content_type: Option<&str>,
    registry: &MappingRegistry,
) -> (r: String)
    ensures
        r@ == json_pretty_text(
            if rich {
                graph_jsonld_spec(rows@.map_values(|x: GraphRow| row_view(x)), base_url@, page_url@, default_vocab@, *registry)
            } else {
                jsonld_spec(base_url@, page_output_path@, opt_seq(title), opt_seq(date), opt_seq(author), opt_seq(content_type))
            },
        ),
{
    let ld = if rich {
        build_jsonld_from_graph(rows, base_url, page_url, default_vocab, registry)
    } else {
        build_jsonld(base_url, page_output_path, title, date, author, content_type)
    };
    json_to_string_pretty(&ld)
}

/// The `@type` of a page's JSON-LD is a schema.org type name: for every
/// content type that has a schema.org type (the built-in labels such as
/// `How-To Guide`, and the type names themselves), it is the name whose
/// schema.org IRI is the page's default `rdf:type`.
pub proof fn law_jsonld_type_is_schema_name(
    base_url: Seq<char>,
    page_path: Seq<char>,
    title: Option<Seq<char>>,
    date: Option<Seq<char>>,
    author: Option<Seq<char>>,
    ct: Seq<char>,
)
    requires
        crate::site::default_type_iri_spec(ct) != "https://schema.org/WebPage"@ || ct == "Web Page"@ || ct
            == "WebPage"@,
    ensures
        jsonld_members(base_url, page_path, title, date, author, Some(ct))[2] == (
            "@type"@,
            JsonV::String(schema_type_spec(Some(ct))),
        ),
        "https://schema.org/"@ + schema_type_spec(Some(ct)) == crate::site::default_type_iri_spec(ct),
{
    reveal_strlit("https://schema.org/");
    reveal_strlit("BlogPosting");
    reveal_strlit("Article");
    reveal_strlit("HowTo");
    reveal_strlit("FAQPage");
    reveal_strlit("Event");
    reveal_strlit("WebPage");
    reveal_strlit("https://schema.org/BlogPosting");
    reveal_strlit("https://schema.org/Article");
    reveal_strlit("https://schema.org/HowTo");
    reveal_strlit("https://schema.org/FAQPage");
    reveal_strlit("https://schema.org/Event");
    reveal_strlit("https://schema.org/WebPage");
    assert("https://schema.org/"@ + "BlogPosting"@ =~= "https://schema.org/BlogPosting"@);
    assert("https://schema.org/"@ + "Article"@ =~= "https://schema.org/Article"@);
    assert("https://schema.org/"@ + "HowTo"@ =~= "https://schema.org/HowTo"@);
    assert("https://schema.org/"@ + "FAQPage"@ =~= "https://schema.org/FAQPage"@);
    assert("https://schema.org/"@ + "Event"@ =~= "https://schema.org/Event"@);
    assert("https://schema.org/"@ + "WebPage"@ =~= "https://schema.org/WebPage"@);
}

/// The built-in content-type labels name their schema.org types in a page's
/// JSON-LD, whatever the page's other fields: `Blog Post` is `BlogPosting`,
/// `How-To Guide` is `HowTo`, `FAQ Page` is `FAQPage` and `Web Page` is
/// `WebPage`; a page with no content type is a `WebPage`.
pub proof fn law_jsonld_type_of_labels(
    base_url: Seq<char>,
    page_path: Seq<char>,
    title: Option<Seq<char>>,
    date: Option<Seq<char>>,
    author: Option<Seq<char>>,
)
    ensures
        jsonld_members(base_url, page_path, title, date, author, Some("Blog Post"@))[2].1 == JsonV::String(
            "BlogPosting"@,
        ),
        jsonld_members(base_url, page_path, title, date, author, Some("How-To Guide"@))[2].1 == JsonV::String(
            "HowTo"@,
        ),
        jsonld_members(base_url, page_path, title, date, author, Some("FAQ Page"@))[2].1 == JsonV::String(
            "FAQPage"@,
        ),
        jsonld_members(base_url, page_path, title, date, author, Some("Web Page"@))[2].1 == JsonV::String(
            "WebPage"@,
        ),
        jsonld_members(base_url, page_path, title, date, author, None)[2].1 == JsonV::String("WebPage"@),
{
    reveal_strlit("Blog Post");
    reveal_strlit("BlogPosting");
    reveal_strlit("Article");
    reveal_strlit("How-To Guide");
    reveal_strlit("HowTo");
    reveal_strlit("FAQ Page");
    reveal_strlit("FAQPage");
    reveal_strlit("Event");
    reveal_strlit("Web Page");
    reveal_strlit("WebPage");
    assert("How-To Guide"@.len() != "Blog Post"@.len() && "How-To Guide"@.len() != "BlogPosting"@.len());
    assert("How-To Guide"@.len() != "Article"@.len());
    assert("FAQ Page"@ != "Blog Post"@ && "FAQ Page"@ != "BlogPosting"@ && "FAQ Page"@ != "Article"@);
    assert("FAQ Page"@[0] != "How-To Guide"@[0] && "FAQ Page"@[0] != "HowTo"@[0]);
    assert("Web Page"@[0] != "Blog Post"@[0] && "Web Page"@[0] != "BlogPosting"@[0] && "Web Page"@[0] != "Article"@[0]);
    assert("Web Page"@[0] != "How-To Guide"@[0] && "Web Page"@[0] != "HowTo"@[0]);
    assert("Web Page"@[0] != "FAQ Page"@[0] && "Web Page"@[0] != "FAQPage"@[0] && "Web Page"@[0] != "Event"@[0]);
}

} // verus!
