//! The fields of a page's frontmatter that the build reads, with their defaults.
use vstd::prelude::*;
use crate::json::{Json, JsonV, json_view, json_obj_view, json_seq_view, member, str_member, get_member,
    get_str_member, clone_members, lemma_json_seq_view_len};

verus! {

/// The standard fields of a page, as the build reads them from its frontmatter.
#[derive(Debug, Clone)]
pub struct PageFields {
    pub title: String,
    pub author: Option<String>,
    pub content_type: Option<String>,
    pub description: Option<String>,
    pub template: String,
    pub tags: Option<Vec<String>>,
}

/// The members of a frontmatter value: none unless it is a table.
pub open spec fn fm_members(fm: JsonV) -> Seq<(Seq<char>, JsonV)> {
    match fm {
        JsonV::Object(m) => m,
        _ => Seq::empty(),
    }
}

/// The string values of a list, in order; other values are left out.
pub open spec fn strings_in(a: Seq<JsonV>) -> Seq<Seq<char>>
    decreases a.len(),
{
    if a.len() == 0 {
        Seq::empty()
    } else {
        strings_in(a.drop_last()) + match a.last() {
            JsonV::String(s) => seq![s],
            _ => Seq::empty(),
        }
    }
}

/// A page's tags: the strings of its `tags` list; none when `tags` is not a list.
pub open spec fn tags_spec(fm: JsonV) -> Option<Seq<Seq<char>>> {
    match member(fm_members(fm), "tags"@) {
        Some(JsonV::Array(a)) => Some(strings_in(a)),
        _ => None,
    }
}

pub open spec fn or_default(o: Option<Seq<char>>, d: Seq<char>) -> Seq<char> {
    match o {
        Some(s) => s,
        None => d,
    }
}

pub open spec fn opt_string_view(o: Option<String>) -> Option<Seq<char>> {
    match o {
        Some(s) => Some(s@),
        None => None,
    }
}

/// The fields a page's frontmatter gives: its string `title` (else `Untitled`), `author`,
/// `type`, `description`, `template` (else `page.html`), and `tags`.
pub open spec fn page_fields_spec(fm: JsonV, r: PageFields) -> bool {
    let m = fm_members(fm);
    &&& r.title@ == or_default(str_member(m, "title"@), "Untitled"@)
    &&& opt_string_view(r.author) == str_member(m, "author"@)
    &&& opt_string_view(r.content_type) == str_member(m, "type"@)
    &&& opt_string_view(r.description) == str_member(m, "description"@)
    &&& r.template@ == or_default(str_member(m, "template"@), "page.html"@)
    &&& match r.tags {
        Some(t) => tags_spec(fm) == Some(t@.map_values(|s: String| s@)),
        None => tags_spec(fm) is None,
    }
}

fn str_field(m: &Vec<(String, Json)>, key: &str) -> (r: Option<String>)
    ensures
        opt_string_view(r) == str_member(json_obj_view(m@), key@),
{
    match get_str_member(m, key) {
        Some(s) => Some(s.to_string()),
        None => None,
    }
}

fn strings_of(a: &Vec<Json>) -> (r: Vec<String>)
    ensures
        r@.map_values(|s: String| s@) == strings_in(json_seq_view(a@)),
{
    proof {
        lemma_json_seq_view_len(a@);
    }
    let mut r: Vec<String> = Vec::new();
    let mut i: usize = 0;
    while i < a.len()
        invariant
            i <= a.len(),
            json_seq_view(a@).len() == a@.len(),
            forall|k: int| 0 <= k < a@.len() ==> #[trigger] json_seq_view(a@)[k] == json_view(a@[k]),
            r@.map_values(|s: String| s@) == strings_in(json_seq_view(a@).take(i as int)),
        decreases a.len() - i,
    {
        let ghost v = json_seq_view(a@);
        proof {
            assert(v.take(i + 1).drop_last() =~= v.take(i as int));
            assert(v.take(i + 1).last() == json_view(a@[i as int]));
        }
        match &a[i] {
            Json::String(s) => {
                let ghost prev = r@;
                r.push(s.clone());
                proof {
                    assert(r@.map_values(|s: String| s@) =~= prev.map_values(|s: String| s@) + seq![s@]);
                }
            },
            _ => {
                assert(strings_in(v.take(i + 1)) =~= strings_in(v.take(i as int)));
            },
        }
        i = i + 1;
    }
    proof {
        assert(json_seq_view(a@).take(a@.len() as int) =~= json_seq_view(a@));
    }
    r
}

/// Reads the standard fields of a page from its frontmatter.
pub fn page_fields(fm: &Json) -> (r: PageFields)
    ensures
        page_fields_spec(fm@, r),
{
    proof {
        reveal_strlit("Untitled");
        reveal_strlit("page.html");
    }
    match fm {
        Json::Object(m) => {
            let title = match get_str_member(m, "title") {
                Some(s) => s.to_string(),
                None => "Untitled".to_string(),
            };
            let template = match get_str_member(m, "template") {
                Some(s) => s.to_string(),
                None => "page.html".to_string(),
            };
            let tags = match get_member(m, "tags") {
                Some(Json::Array(a)) => Some(strings_of(a)),
                _ => None,
            };
            PageFields {
                title,
                author: str_field(m, "author"),
                content_type: str_field(m, "type"),
                description: str_field(m, "description"),
                template,
                tags,
            }
        },
        _ => PageFields {
            title: "Untitled".to_string(),
            author: None,
            content_type: None,
            description: None,
            template: "page.html".to_string(),
            tags: None,
        },
    }
}

/// A page's `[rdf.custom]` table: the members of `rdf.custom`, none unless both are tables.
pub open spec fn rdf_custom_spec(fm: JsonV) -> Seq<(Seq<char>, JsonV)> {
    match member(fm_members(fm), "rdf"@) {
        Some(JsonV::Object(r)) => match member(r, "custom"@) {
            Some(JsonV::Object(c)) => c,
            _ => Seq::empty(),
        },
        _ => Seq::empty(),
    }
}

/// A page's `[data]` table: the members of `data`, none unless it is a table.
pub open spec fn data_spec(fm: JsonV) -> Seq<(Seq<char>, JsonV)> {
    match member(fm_members(fm), "data"@) {
        Some(JsonV::Object(d)) => d,
        _ => Seq::empty(),
    }
}

fn table_members(j: Option<&Json>) -> (r: Vec<(String, Json)>)
    ensures
        json_obj_view(r@) == match j {
            Some(x) => match x@ {
                JsonV::Object(t) => t,
                _ => Seq::empty(),
            },
            None => Seq::<(Seq<char>, JsonV)>::empty(),
        },
{
    match j {
        Some(Json::Object(t)) => clone_members(t),
        _ => {
            let r: Vec<(String, Json)> = Vec::new();
            assert(json_obj_view(r@) =~= Seq::<(Seq<char>, JsonV)>::empty());
            r
        },
    }
}

/// The `[rdf.custom]` and `[data]` fields of a page's frontmatter.
pub fn frontmatter_tables(fm: &Json) -> (r: (Vec<(String, Json)>, Vec<(String, Json)>))
    ensures
        json_obj_view(r.0@) == rdf_custom_spec(fm@),
        json_obj_view(r.1@) == data_spec(fm@),
{
    match fm {
        Json::Object(m) => {
            let custom = match get_member(m, "rdf") {
                Some(Json::Object(r)) => table_members(get_member(r, "custom")),
                _ => table_members(None),
            };
            let data = table_members(get_member(m, "data"));
            (custom, data)
        },
        _ => (table_members(None), table_members(None)),
    }
}

} // verus!
