//! What a page contributes outside its own HTML: its entry in the page index that
//! templates query, and the triples its `[data]` and `[rdf.custom]` fields become.
use vstd::prelude::*;
use crate::json::{Json, JsonV, json_view, json_obj_view, json_text, json_to_string, member, get_member, clone_members, number_inline, number_inline_text};
use crate::context::{strings_view, strings_to_json};
use crate::merge::{obj_insert, insert_member, lemma_obj_insert_member};
use crate::mappings::MappingRegistry;
use crate::site::{object_view, data_predicate_spec, custom_predicate_spec, data_predicate, custom_predicate, page_triples, page_triples_spec, opt_view};
use crate::store::{ContentStore, StoreError, iri_parses, rdf_object, triple_iris_parse, typed_literal_object};
use crate::tokens::{TokenValue, TokenValueV, FlatToken, FlatV, flat_views};
use crate::theme::{css_var_spec, path_to_css_var_name};
use crate::types::{ObjectValue, XSD_INTEGER, XSD_DOUBLE, XSD_BOOLEAN, XSD_STRING};

verus! {

/// The RDF object a JSON field value becomes, as (kind, value, datatype) with kind 1 for a
/// plain literal and 2 for a typed one: a string is a plain literal; an integer that fits
/// 64 bits is an `xsd:integer`, any other number an `xsd:double` in its shortest form; a
/// boolean is an `xsd:boolean`; anything else is a plain literal of its JSON text.
pub open spec fn object_of_json(j: JsonV) -> (int, Seq<char>, Seq<char>) {
    match j {
        JsonV::String(s) => (1, s, Seq::empty()),
        JsonV::Number(n) => match n.int_text {
            Some(t) => (2, t@, XSD_INTEGER@),
            None => (2, n.display@, XSD_DOUBLE@),
        },
        JsonV::Bool(b) => (2, if b { "true"@ } else { "false"@ }, XSD_BOOLEAN@),
        _ => (1, json_text(j), Seq::empty()),
    }
}

/// Converts a JSON field value to the RDF object it is stored as.
pub fn json_to_object_value(value: &Json) -> (r: ObjectValue)
    ensures
        object_view(r) == object_of_json(value@),
{
    match value {
        Json::String(s) => ObjectValue::Literal(s.clone()),
        Json::Number(n) => match &n.int_text {
            Some(t) => ObjectValue::TypedLiteral { value: t.clone(), datatype: XSD_INTEGER.to_string() },
            None => ObjectValue::TypedLiteral {
                value: n.display.clone(),
                datatype: XSD_DOUBLE.to_string(),
            },
        },
        Json::Bool(b) => {
            let v = if *b { "true" } else { "false" };
            proof {
                reveal_strlit("true");
                reveal_strlit("false");
            }
            ObjectValue::TypedLiteral { value: v.to_string(), datatype: XSD_BOOLEAN.to_string() }
        },
        _ => ObjectValue::Literal(json_to_string(value)),
    }
}

/// The triples of a page's `[data]` fields, in the order of the fields: each key's
/// predicate as `data_predicate` resolves it, each value's object as above.
pub open spec fn data_triples_spec(reg: MappingRegistry, fields: Seq<(Seq<char>, JsonV)>) -> Seq<
    (Seq<char>, (int, Seq<char>, Seq<char>)),
> {
    Seq::new(fields.len(), |i: int| (data_predicate_spec(reg, fields[i].0), object_of_json(fields[i].1)))
}

/// The triples of a page's `[rdf.custom]` fields, in the order of the fields: each key
/// expanded as a prefixed name where it is one, else used as it stands.
pub open spec fn custom_triples_spec(reg: MappingRegistry, fields: Seq<(Seq<char>, JsonV)>) -> Seq<
    (Seq<char>, (int, Seq<char>, Seq<char>)),
> {
    Seq::new(fields.len(), |i: int| (custom_predicate_spec(reg, fields[i].0), object_of_json(fields[i].1)))
}

pub open spec fn triples_view(t: Seq<(String, ObjectValue)>) -> Seq<(Seq<char>, (int, Seq<char>, Seq<char>))> {
    Seq::new(t.len(), |i: int| (t[i].0@, object_view(t[i].1)))
}

/// The (predicate, object) pairs a page's `[data]` fields are stored as.
pub fn data_triples(fields: &Vec<(String, Json)>, registry: &MappingRegistry) -> (r: Vec<(String, ObjectValue)>)
    requires
        registry.wf(),
    ensures
        triples_view(r@) == data_triples_spec(*registry, json_obj_view(fields@)),
{
    proof {
        crate::json::lemma_json_obj_view_len(fields@);
    }
    let mut r: Vec<(String, ObjectValue)> = Vec::new();
    let mut i: usize = 0;
    while i < fields.len()
        invariant
            i <= fields.len(),
            registry.wf(),
            json_obj_view(fields@).len() == fields@.len(),
            forall|k: int| 0 <= k < fields@.len() ==> #[trigger] json_obj_view(fields@)[k] == (
                fields@[k].0@,
                json_view(fields@[k].1),
            ),
            triples_view(r@) == data_triples_spec(*registry, json_obj_view(fields@)).take(i as int),
        decreases fields.len() - i,
    {
        let p = data_predicate(fields[i].0.as_str(), registry);
        let o = json_to_object_value(&fields[i].1);
        proof {
            assert(json_obj_view(fields@)[i as int] == (fields@[i as int].0@, json_view(fields@[i as int].1)));
        }
        let ghost prev = r@;
        let ghost spec = data_triples_spec(*registry, json_obj_view(fields@));
        let e = (p, o);
        r.push(e);
        proof {
            assert(r@ == prev.push(e));
            assert(triples_view(prev).len() == prev.len());
            assert(prev.len() == i);
            assert forall|k: int| 0 <= k < i + 1 implies #[trigger] triples_view(r@)[k] == spec.take(i + 1)[k] by {
                if k < i {
                    assert(triples_view(prev)[k] == spec.take(i as int)[k]);
                }
            }
            assert(triples_view(r@) =~= spec.take(i + 1));
        }
        i = i + 1;
    }
    assert(data_triples_spec(*registry, json_obj_view(fields@)).take(i as int) =~= data_triples_spec(
        *registry,
        json_obj_view(fields@),
    ));
    r
}

/// The (predicate, object) pairs a page's `[rdf.custom]` fields are stored as.
pub fn custom_triples(fields: &Vec<(String, Json)>, registry: &MappingRegistry) -> (r: Vec<(String, ObjectValue)>)
    requires
        registry.wf(),
    ensures
        triples_view(r@) == custom_triples_spec(*registry, json_obj_view(fields@)),
{
    proof {
        crate::json::lemma_json_obj_view_len(fields@);
    }
    let mut r: Vec<(String, ObjectValue)> = Vec::new();
    let mut i: usize = 0;
    while i < fields.len()
        invariant
            i <= fields.len(),
            registry.wf(),
            json_obj_view(fields@).len() == fields@.len(),
            forall|k: int| 0 <= k < fields@.len() ==> #[trigger] json_obj_view(fields@)[k] == (
                fields@[k].0@,
                json_view(fields@[k].1),
            ),
            triples_view(r@) == custom_triples_spec(*registry, json_obj_view(fields@)).take(i as int),
        decreases fields.len() - i,
    {
        let p = custom_predicate(fields[i].0.as_str(), registry);
        let o = json_to_object_value(&fields[i].1);
        proof {
            assert(json_obj_view(fields@)[i as int] == (fields@[i as int].0@, json_view(fields@[i as int].1)));
        }
        let ghost prev = r@;
        let ghost spec = custom_triples_spec(*registry, json_obj_view(fields@));
        let e = (p, o);
        r.push(e);
        proof {
            assert(r@ == prev.push(e));
            assert(triples_view(prev).len() == prev.len());
            assert(prev.len() == i);
            assert forall|k: int| 0 <= k < i + 1 implies #[trigger] triples_view(r@)[k] == spec.take(i + 1)[k] by {
                if k < i {
                    assert(triples_view(prev)[k] == spec.take(i as int)[k]);
                }
            }
            assert(triples_view(r@) =~= spec.take(i + 1));
        }
        i = i + 1;
    }
    assert(custom_triples_spec(*registry, json_obj_view(fields@)).take(i as int) =~= custom_triples_spec(
        *registry,
        json_obj_view(fields@),
    ));
    r
}

/// The members a page's index entry starts from: its frontmatter when that is an
/// object, else none.
pub open spec fn entry_base(frontmatter: JsonV) -> Seq<(Seq<char>, JsonV)> {
    match frontmatter {
        JsonV::Object(m) => m,
        _ => Seq::empty(),
    }
}

pub open spec fn insert_opt(m: Seq<(Seq<char>, JsonV)>, k: Seq<char>, v: Option<JsonV>) -> Seq<
    (Seq<char>, JsonV),
> {
    match v {
        Some(x) => obj_insert(m, k, x),
        None => m,
    }
}

pub open spec fn opt_str_json(o: Option<String>) -> Option<JsonV> {
    match o {
        Some(s) => Some(JsonV::String(s@)),
        None => None,
    }
}

/// A page's entry in the page index: its frontmatter with `url` and `title` set, and
/// `date`, `author`, `description` and `tags` set where the page has them.
pub open spec fn page_entry_spec(
    frontmatter: JsonV,
    page_url: Seq<char>,
    title: Seq<char>,
    date: Option<String>,
    author: Option<String>,
    description: Option<String>,
    tags: Option<Vec<String>>,
) -> JsonV {
    let m = obj_insert(entry_base(frontmatter), "url"@, JsonV::String(page_url));
    let m = obj_insert(m, "title"@, JsonV::String(title));
    let m = insert_opt(m, "date"@, opt_str_json(date));
    let m = insert_opt(m, "author"@, opt_str_json(author));
    let m = insert_opt(m, "description"@, opt_str_json(description));
    let m = insert_opt(
        m,
        "tags"@,
        match tags {
            Some(t) => Some(JsonV::Array(strings_view(t@))),
            None => None,
        },
    );
    JsonV::Object(m)
}

fn base_members(frontmatter: &Json) -> (r: Vec<(String, Json)>)
    ensures
        json_obj_view(r@) == entry_base(frontmatter@),
{
    match frontmatter {
        Json::Object(m) => clone_members(m),
        _ => {
            let r: Vec<(String, Json)> = Vec::new();
            assert(json_obj_view(r@) =~= Seq::<(Seq<char>, JsonV)>::empty());
            r
        },
    }
}

fn insert_opt_string(m: &mut Vec<(String, Json)>, key: &str, value: &Option<String>)
    ensures
        json_obj_view(final(m)@) == insert_opt(json_obj_view(old(m)@), key@, opt_str_json(*value)),
{
    if let Some(s) = value {
        insert_member(m, key.to_string(), Json::String(s.clone()));
    }
}

/// Builds a page's entry in the page index.
pub fn build_page_entry(
    frontmatter: &Json,
    page_url: &str,
    title: &str,
    date: &Option<String>,
    author: &Option<String>,
    description: &Option<String>,
    tags: &Option<Vec<String>>,
) -> (r: Json)
    ensures
        r@ == page_entry_spec(frontmatter@, page_url@, title@, *date, *author, *description, *tags),
{
    let mut m = base_members(frontmatter);
    insert_member(&mut m, "url".to_string(), Json::String(page_url.to_string()));
    insert_member(&mut m, "title".to_string(), Json::String(title.to_string()));
    insert_opt_string(&mut m, "date", date);
    insert_opt_string(&mut m, "author", author);
    insert_opt_string(&mut m, "description", description);
    match tags {
        Some(t) => {
            let a = strings_to_json(t);
            insert_member(&mut m, "tags".to_string(), Json::Array(a));
        },
        None => {},
    }
    Json::Object(m)
}

/// The members a page entry sets itself.
pub open spec fn entry_key(k: Seq<char>) -> bool {
    k == "url"@ || k == "title"@ || k == "date"@ || k == "author"@ || k == "description"@ || k == "tags"@
}

proof fn lemma_insert_opt_member(m: Seq<(Seq<char>, JsonV)>, k: Seq<char>, v: Option<JsonV>, k2: Seq<char>)
    ensures
        member(insert_opt(m, k, v), k2) == if k2 == k && v is Some { v } else { member(m, k2) },
{
    if let Some(x) = v {
        lemma_obj_insert_member(m, k, x, k2);
    }
}

/// A page's entry in the page index, as templates see it through `pages()` and
/// `tree()`: `url` and `title` are the page's, and every other frontmatter field is
/// there as the frontmatter has it.
pub proof fn law_page_entry_fields(
    frontmatter: JsonV,
    page_url: Seq<char>,
    title: Seq<char>,
    date: Option<String>,
    author: Option<String>,
    description: Option<String>,
    tags: Option<Vec<String>>,
    k: Seq<char>,
)
    ensures
        page_entry_spec(frontmatter, page_url, title, date, author, description, tags) matches JsonV::Object(m)
            && member(m, "url"@) == Some(JsonV::String(page_url))
            && member(m, "title"@) == Some(JsonV::String(title))
            && (!entry_key(k) ==> member(m, k) == member(entry_base(frontmatter), k)),
{
    reveal_strlit("url");
    reveal_strlit("title");
    reveal_strlit("date");
    reveal_strlit("author");
    reveal_strlit("description");
    reveal_strlit("tags");
    let tv = match tags {
        Some(t) => Some(JsonV::Array(strings_view(t@))),
        None => None,
    };
    let m0 = entry_base(frontmatter);
    let m1 = obj_insert(m0, "url"@, JsonV::String(page_url));
    let m2 = obj_insert(m1, "title"@, JsonV::String(title));
    let m3 = insert_opt(m2, "date"@, opt_str_json(date));
    let m4 = insert_opt(m3, "author"@, opt_str_json(author));
    let m5 = insert_opt(m4, "description"@, opt_str_json(description));
    let m6 = insert_opt(m5, "tags"@, tv);
    let keys = seq!["url"@, "title"@, k];
    assert forall|i: int| 0 <= i < 3 implies #[trigger] member(m6, keys[i]) == if keys[i] == "title"@ {
        Some(JsonV::String(title))
    } else if keys[i] == "url"@ {
        Some(JsonV::String(page_url))
    } else if entry_key(keys[i]) {
        member(m6, keys[i])
    } else {
        member(m0, keys[i])
    } by {
        let key = keys[i];
        lemma_obj_insert_member(m0, "url"@, JsonV::String(page_url), key);
        lemma_obj_insert_member(m1, "title"@, JsonV::String(title), key);
        lemma_insert_opt_member(m2, "date"@, opt_str_json(date), key);
        lemma_insert_opt_member(m3, "author"@, opt_str_json(author), key);
        lemma_insert_opt_member(m4, "description"@, opt_str_json(description), key);
        lemma_insert_opt_member(m5, "tags"@, tv, key);
    }
    assert(member(m6, keys[0]) == Some(JsonV::String(page_url)));
    assert(member(m6, keys[1]) == Some(JsonV::String(title)));
    assert(!entry_key(k) ==> member(m6, keys[2]) == member(m0, k));
}

/// The index entry of a page that is not rendered in this build: its frontmatter with
/// `url` set, and `title` set to `Untitled` where the frontmatter has none.
pub open spec fn frontmatter_entry_spec(frontmatter: JsonV, page_url: Seq<char>) -> JsonV {
    let m = obj_insert(entry_base(frontmatter), "url"@, JsonV::String(page_url));
    if member(m, "title"@) is Some {
        JsonV::Object(m)
    } else {
        JsonV::Object(obj_insert(m, "title"@, JsonV::String("Untitled"@)))
    }
}

/// Builds the index entry of a page from its frontmatter alone.
pub fn build_page_entry_from_frontmatter(frontmatter: &Json, page_url: &str) -> (r: Json)
    ensures
        r@ == frontmatter_entry_spec(frontmatter@, page_url@),
{
    let mut m = base_members(frontmatter);
    insert_member(&mut m, "url".to_string(), Json::String(page_url.to_string()));
    if get_member(&m, "title").is_none() {
        insert_member(&mut m, "title".to_string(), Json::String("Untitled".to_string()));
    }
    Json::Object(m)
}

/// The text a token value is stored as in the graph: a string as it is, a number as it
/// reads inline, a boolean as `true` or `false`, and a composite as its JSON text.
pub open spec fn token_text(v: TokenValueV) -> Seq<char> {
    match v {
        TokenValueV::String(s) => s,
        TokenValueV::Number(n) => number_inline(n),
        TokenValueV::Bool(b) => if b { "true"@ } else { "false"@ },
        TokenValueV::Object(m) => json_text(JsonV::Object(m)),
        TokenValueV::Array(a) => json_text(JsonV::Array(a)),
    }
}

/// Converts a token value to the text it is stored as.
pub fn token_value_to_string(value: &TokenValue) -> (r: String)
    ensures
        r@ == token_text(value@),
{
    match value {
        TokenValue::String(s) => s.clone(),
        TokenValue::Number(n) => number_inline_text(n),
        TokenValue::Bool(b) => {
            proof {
                reveal_strlit("true");
                reveal_strlit("false");
            }
            if *b { "true".to_string() } else { "false".to_string() }
        },
        TokenValue::Object(m) => {
            let j = Json::Object(clone_members(m));
            json_to_string(&j)
        },
        TokenValue::Array(a) => {
            let j = Json::Array(crate::json::clone_json_vec(a));
            json_to_string(&j)
        },
    }
}

/// The named graph design tokens are stored in.
pub const GRAPH_DESIGN_TOKENS: &'static str = "urn:geoff:design-tokens";

/// The triples (subject, predicate, object) one design token is stored as: its type where
/// it has one, its value as text, and its CSS custom property name.
pub open spec fn token_triples_of(t: FlatV) -> Seq<(Seq<char>, Seq<char>, (int, Seq<char>, Seq<char>))> {
    let subject = "urn:geoff:design-token:"@ + t.path;
    (match t.token_type {
        Some(ty) => seq![(subject, "urn:geoff:design-token:type"@, (1int, ty, Seq::<char>::empty()))],
        None => Seq::empty(),
    }) + seq![
        (subject, "urn:geoff:design-token:value"@, (1int, token_text(t.value), Seq::<char>::empty())),
        (subject, "urn:geoff:design-token:cssVariable"@, (1int, css_var_spec(t.path, None), Seq::<char>::empty())),
    ]
}

/// The triples of a list of design tokens, token after token.
pub open spec fn token_triples_spec(ts: Seq<FlatV>) -> Seq<(Seq<char>, Seq<char>, (int, Seq<char>, Seq<char>))>
    decreases ts.len(),
{
    if ts.len() == 0 {
        Seq::empty()
    } else {
        token_triples_spec(ts.drop_last()) + token_triples_of(ts.last())
    }
}

pub open spec fn spo_view(t: Seq<(String, String, ObjectValue)>) -> Seq<(Seq<char>, Seq<char>, (int, Seq<char>, Seq<char>))> {
    Seq::new(t.len(), |i: int| (t[i].0@, t[i].1@, object_view(t[i].2)))
}

fn push_token_triple(r: &mut Vec<(String, String, ObjectValue)>, subject: &String, predicate: &str, value: String)
    ensures
        spo_view(final(r)@) == spo_view(old(r)@) + seq![(subject@, predicate@, (1int, value@, Seq::<char>::empty()))],
{
    let e = (subject.clone(), predicate.to_string(), ObjectValue::Literal(value));
    let ghost prev = r@;
    r.push(e);
    proof {
        assert(spo_view(r@) =~= spo_view(prev) + seq![(subject@, predicate@, (1int, value@, Seq::<char>::empty()))]);
    }
}

/// The triples (subject, predicate, object) that describe a set of design tokens in the graph.
pub fn token_triples(tokens: &Vec<FlatToken>) -> (r: Vec<(String, String, ObjectValue)>)
    ensures
        spo_view(r@) == token_triples_spec(flat_views(tokens@)),
{
    let mut r: Vec<(String, String, ObjectValue)> = Vec::new();
    let mut i: usize = 0;
    proof {
        assert(spo_view(r@) =~= Seq::empty());
        assert(flat_views(tokens@).take(0) =~= Seq::<FlatV>::empty());
    }
    while i < tokens.len()
        invariant
            i <= tokens.len(),
            flat_views(tokens@).len() == tokens@.len(),
            spo_view(r@) == token_triples_spec(flat_views(tokens@).take(i as int)),
        decreases tokens.len() - i,
    {
        let t = &tokens[i];
        let mut subject = "urn:geoff:design-token:".to_string();
        subject.append(t.path.as_str());
        match &t.token_type {
            Some(ty) => push_token_triple(&mut r, &subject, "urn:geoff:design-token:type", ty.clone()),
            None => {},
        }
        push_token_triple(&mut r, &subject, "urn:geoff:design-token:value", token_value_to_string(&t.value));
        push_token_triple(&mut r, &subject, "urn:geoff:design-token:cssVariable", path_to_css_var_name(t.path.as_str()));
        proof {
            let fv = flat_views(tokens@);
            assert(fv.take(i + 1).drop_last() =~= fv.take(i as int));
            assert(fv[i as int] == tokens@[i as int]@);
        }
        i = i + 1;
    }
    proof {
        assert(flat_views(tokens@).take(tokens@.len() as int) =~= flat_views(tokens@));
    }
    r
}

// ---------------------------------------------------------------------------
// A page's graph
// ---------------------------------------------------------------------------

/// An object (kind, value, datatype) as the store holds it: a plain literal is an
/// `xsd:string` literal, a typed literal is kept as the store keeps it.
pub open spec fn stored_object(o: (int, Seq<char>, Seq<char>)) -> (int, Seq<char>, Seq<char>) {
    if o.0 == 1 {
        (2, o.1, XSD_STRING@)
    } else if o.0 == 2 {
        typed_literal_object(o.1, o.2)
    } else {
        o
    }
}

/// The quads a list of (predicate, object) pairs about a subject makes in a graph.
pub open spec fn quads_of(
    subject: Seq<char>,
    triples: Seq<(Seq<char>, (int, Seq<char>, Seq<char>))>,
    graph: Seq<char>,
) -> Set<(Seq<char>, Seq<char>, (int, Seq<char>, Seq<char>), Seq<char>)> {
    Set::new(|q: (Seq<char>, Seq<char>, (int, Seq<char>, Seq<char>), Seq<char>)| exists|i: int| 0 <= i < triples.len()
        && q == (subject, triples[i].0, stored_object(triples[i].1), graph))
}

/// Everything a page's frontmatter says about the page, as (predicate, object) pairs: its
/// standard fields, its `[rdf.custom]` fields and its `[data]` fields.
pub open spec fn page_graph_spec(
    reg: MappingRegistry,
    title: Option<Seq<char>>,
    date: Option<Seq<char>>,
    author: Option<Seq<char>>,
    description: Option<Seq<char>>,
    content_type: Option<Seq<char>>,
    url: Option<Seq<char>>,
    rdf_fields: Seq<(Seq<char>, JsonV)>,
    data_fields: Seq<(Seq<char>, JsonV)>,
) -> Seq<(Seq<char>, (int, Seq<char>, Seq<char>))> {
    page_triples_spec(reg, title, date, author, description, content_type, url)
        + custom_triples_spec(reg, rdf_fields) + data_triples_spec(reg, data_fields)
}

proof fn lemma_stored_object(o: ObjectValue)
    ensures
        rdf_object(o) == stored_object(object_view(o)),
{
}

/// Whether every IRI of a (predicate, object) pair about a subject in a graph parses:
/// the subject, predicate and graph, an IRI object, and a typed literal's datatype.
pub open spec fn pair_iris_parse(subject: Seq<char>, pair: (Seq<char>, (int, Seq<char>, Seq<char>)), graph: Seq<char>) -> bool {
    &&& iri_parses(subject)
    &&& iri_parses(pair.0)
    &&& iri_parses(graph)
    &&& (pair.1.0 == 0 ==> iri_parses(pair.1.1))
    &&& (pair.1.0 == 2 ==> iri_parses(pair.1.2))
}

proof fn lemma_pair_iris_parse(s: Seq<char>, p: String, o: ObjectValue, g: Seq<char>)
    ensures
        triple_iris_parse(s, p@, o, g) == pair_iris_parse(s, (p@, object_view(o)), g),
{
}

/// Puts what a page's frontmatter says about the page into the page's named graph (its
/// URI names both).  On success the store holds what it held and exactly these
/// triples; a failure (an IRI that does not parse) may leave some of them stored.
#[verifier::rlimit(40)]
pub fn insert_page_graph(
    store: &mut ContentStore,
    page_uri: &str,
    title: Option<&str>,
    date: Option<&str>,
    author: Option<&str>,
    description: Option<&str>,
    content_type: Option<&str>,
    url: Option<&str>,
    rdf_fields: &Vec<(String, Json)>,
    data_fields: &Vec<(String, Json)>,
    registry: &MappingRegistry,
) -> (r: Result<(), StoreError>)
    requires
        registry.wf(),
    ensures
        r is Ok ==> final(store).quads() == old(store).quads().union(quads_of(
            page_uri@,
            page_graph_spec(
                *registry,
                opt_view(title),
                opt_view(date),
                opt_view(author),
                opt_view(description),
                opt_view(content_type),
                opt_view(url),
                json_obj_view(rdf_fields@),
                json_obj_view(data_fields@),
            ),
            page_uri@,
        )),
        r is Ok <==> forall|i: int| 0 <= i < page_graph_spec(
            *registry,
            opt_view(title),
            opt_view(date),
            opt_view(author),
            opt_view(description),
            opt_view(content_type),
            opt_view(url),
            json_obj_view(rdf_fields@),
            json_obj_view(data_fields@),
        ).len() ==> #[trigger] pair_iris_parse(page_uri@, page_graph_spec(
            *registry,
            opt_view(title),
            opt_view(date),
            opt_view(author),
            opt_view(description),
            opt_view(content_type),
            opt_view(url),
            json_obj_view(rdf_fields@),
            json_obj_view(data_fields@),
        )[i], page_uri@),
        r is Err ==> r == Err::<(), StoreError>(StoreError::InvalidIri),
        old(store).quads().subset_of(final(store).quads()),
{
    let mut all = page_triples(title, date, author, description, content_type, url, registry);
    let ghost a = all@;
    let mut custom = custom_triples(rdf_fields, registry);
    let ghost c = custom@;
    let mut data = data_triples(data_fields, registry);
    let ghost d = data@;
    all.append(&mut custom);
    all.append(&mut data);
    let ghost spec = page_graph_spec(
        *registry,
        opt_view(title),
        opt_view(date),
        opt_view(author),
        opt_view(description),
        opt_view(content_type),
        opt_view(url),
        json_obj_view(rdf_fields@),
        json_obj_view(data_fields@),
    );
    proof {
        assert(all@ == a + c + d);
        let views = all@.map_values(|t: (String, ObjectValue)| (t.0@, object_view(t.1)));
        assert(views =~= spec) by {
            assert(a.map_values(|t: (String, ObjectValue)| (t.0@, object_view(t.1))) == page_triples_spec(
                *registry,
                opt_view(title),
                opt_view(date),
                opt_view(author),
                opt_view(description),
                opt_view(content_type),
                opt_view(url),
            ));
            assert(triples_view(c) == custom_triples_spec(*registry, json_obj_view(rdf_fields@)));
            assert(triples_view(d) == data_triples_spec(*registry, json_obj_view(data_fields@)));
            assert forall|i: int| 0 <= i < views.len() implies views[i] == spec[i] by {
                if i < a.len() {
                    assert(a.map_values(|t: (String, ObjectValue)| (t.0@, object_view(t.1)))[i] == views[i]);
                } else if i < a.len() + c.len() {
                    assert(triples_view(c)[i - a.len()] == views[i]);
                } else {
                    assert(triples_view(d)[i - a.len() - c.len()] == views[i]);
                }
            }
        }
    }
    let r = store.insert_triples_into(page_uri, &all, page_uri);
    proof {
        let views = all@.map_values(|t: (String, ObjectValue)| (t.0@, object_view(t.1)));
        assert forall|i: int| 0 <= i < all@.len() implies #[trigger] triple_iris_parse(page_uri@, all@[i].0@, all@[i].1, page_uri@)
            == pair_iris_parse(page_uri@, spec[i], page_uri@) by {
            lemma_pair_iris_parse(page_uri@, all@[i].0, all@[i].1, page_uri@);
            assert(views[i] == spec[i]);
        }
        if r is Ok {
            assert forall|i: int| 0 <= i < spec.len() implies #[trigger] pair_iris_parse(page_uri@, spec[i], page_uri@) by {
                assert(triple_iris_parse(page_uri@, all@[i].0@, all@[i].1, page_uri@));
            }
        } else {
            assert(!forall|i: int| 0 <= i < spec.len() ==> #[trigger] pair_iris_parse(page_uri@, spec[i], page_uri@)) by {
                let k = choose|k: int| 0 <= k < all@.len() && !#[trigger] triple_iris_parse(page_uri@, all@[k].0@, all@[k].1, page_uri@);
                assert(!pair_iris_parse(page_uri@, spec[k], page_uri@));
            }
        }
        if r is Ok {
            let views = all@.map_values(|t: (String, ObjectValue)| (t.0@, object_view(t.1)));
            let got = Set::new(|q: (Seq<char>, Seq<char>, (int, Seq<char>, Seq<char>), Seq<char>)| exists|i: int| 0 <= i < all@.len()
                && q == (page_uri@, all@[i].0@, rdf_object(all@[i].1), page_uri@));
            assert(got =~= quads_of(page_uri@, spec, page_uri@)) by {
                assert forall|q| got.contains(q) implies quads_of(page_uri@, spec, page_uri@).contains(q) by {
                    let i = choose|i: int| 0 <= i < all@.len() && q == (page_uri@, all@[i].0@, rdf_object(all@[i].1), page_uri@);
                    lemma_stored_object(all@[i].1);
                    assert(views[i] == spec[i]);
                }
                assert forall|q| quads_of(page_uri@, spec, page_uri@).contains(q) implies got.contains(q) by {
                    let i = choose|i: int| 0 <= i < spec.len() && q == (page_uri@, spec[i].0, stored_object(spec[i].1), page_uri@);
                    lemma_stored_object(all@[i].1);
                    assert(views[i] == spec[i]);
                }
            }
        }
    }
    r
}

} // verus!
