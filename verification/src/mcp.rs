//! The MCP manifest that lets agents discover the site's SPARQL tool.
use vstd::prelude::*;
use crate::config::McpConfig;
use crate::json::{Json, JsonV, json_view, json_obj_view, json_seq_view, json_pretty_text,
    json_to_string_pretty, lemma_json_obj_view_push, lemma_json_seq_view_push};
use crate::optimize::{replace_all, replace_str};
use crate::text::{trim_end_char, trim_end_char_exec};

verus! {

/// The tool description used when the configuration gives none.
pub const DEFAULT_TOOL_DESCRIPTION: &'static str =
    "Execute a SPARQL SELECT or ASK query against the site's RDF knowledge graph";

pub open spec fn s(x: Seq<char>) -> JsonV {
    JsonV::String(x)
}

/// The site's name in the manifest: its base URL without scheme, `/` as `-`, and no
/// trailing `-`.
pub open spec fn site_name_spec(base_url: Seq<char>) -> Seq<char> {
    trim_end_char(
        replace_all(replace_all(replace_all(base_url, "https://"@, Seq::empty()), "http://"@, Seq::empty()), "/"@, "-"@),
        '-',
    )
}

/// The input schema of the SPARQL tool.
pub open spec fn input_schema_spec() -> JsonV {
    JsonV::Object(seq![
        ("properties"@, JsonV::Object(seq![
            ("dataset_url"@, JsonV::Object(seq![
                ("description"@, s("URL of the N-Triples dataset"@)),
                ("type"@, s("string"@)),
            ])),
            ("query"@, JsonV::Object(seq![
                ("description"@, s("SPARQL SELECT or ASK query"@)),
                ("type"@, s("string"@)),
            ])),
        ])),
        ("required"@, JsonV::Array(seq![s("query"@)])),
        ("type"@, s("object"@)),
    ])
}

/// The manifest: the site's knowledge-base name and description, and one tool, the
/// SPARQL query binary (the configured URL, else the one under the site's `/bin/`),
/// bound to the site's N-Triples dataset.
pub open spec fn mcp_manifest_spec(base_url: Seq<char>, title: Seq<char>, search_output: Seq<char>, mcp: McpConfig) -> JsonV {
    let base = trim_end_char(base_url, '/');
    let wasm_url = match mcp.wasm_url {
        Some(u) => u@,
        None => base + "/bin/geoff-sparql.wasm"@,
    };
    let description = match mcp.description {
        Some(d) => d@,
        None => DEFAULT_TOOL_DESCRIPTION@,
    };
    JsonV::Object(seq![
        ("description"@, s("Structured knowledge base for "@ + title)),
        ("mcp_version"@, s("1.0"@)),
        ("name"@, s(site_name_spec(base_url) + "-knowledge"@)),
        ("tools"@, JsonV::Array(seq![JsonV::Object(seq![
            ("binary_url"@, s(wasm_url)),
            ("datasets"@, JsonV::Array(Seq::empty())),
            ("description"@, s(description)),
            ("fixed_arguments"@, JsonV::Object(seq![("dataset_url"@, s(base + "/"@ + search_output))])),
            ("input_schema"@, input_schema_spec()),
            ("name"@, s("sparql_query"@)),
            ("runtime"@, s("wasm-wasi"@)),
            ("wit_url"@, s(base + "/bin/geoff-sparql.wit"@)),
        ])])),
    ])
}

fn push_member(m: &mut Vec<(String, Json)>, key: &str, value: Json)
    ensures
        json_obj_view(final(m)@) == json_obj_view(old(m)@).push((key@, json_view(value))),
{
    let e = (key.to_string(), value);
    proof {
        lemma_json_obj_view_push(m@, e);
    }
    m.push(e);
}

fn text(x: &str) -> (j: Json)
    ensures
        j@ == s(x@),
{
    Json::String(x.to_string())
}

fn string_field(desc: &str) -> (j: Json)
    ensures
        j@ == JsonV::Object(seq![("description"@, s(desc@)), ("type"@, s("string"@))]),
{
    let mut m: Vec<(String, Json)> = Vec::new();
    proof {
        assert(json_obj_view(m@) =~= Seq::<(Seq<char>, JsonV)>::empty());
    }
    push_member(&mut m, "description", text(desc));
    push_member(&mut m, "type", text("string"));
    assert(json_obj_view(m@) =~= seq![("description"@, s(desc@)), ("type"@, s("string"@))]);
    Json::Object(m)
}

fn input_schema() -> (j: Json)
    ensures
        j@ == input_schema_spec(),
{
    let mut props: Vec<(String, Json)> = Vec::new();
    proof {
        assert(json_obj_view(props@) =~= Seq::<(Seq<char>, JsonV)>::empty());
    }
    push_member(&mut props, "dataset_url", string_field("URL of the N-Triples dataset"));
    push_member(&mut props, "query", string_field("SPARQL SELECT or ASK query"));
    let mut required: Vec<Json> = Vec::new();
    let q = text("query");
    proof {
        assert(json_seq_view(required@) =~= Seq::<JsonV>::empty());
        lemma_json_seq_view_push(required@, q);
    }
    required.push(q);
    let mut m: Vec<(String, Json)> = Vec::new();
    proof {
        assert(json_obj_view(m@) =~= Seq::<(Seq<char>, JsonV)>::empty());
    }
    push_member(&mut m, "properties", Json::Object(props));
    push_member(&mut m, "required", Json::Array(required));
    push_member(&mut m, "type", text("object"));
    proof {
        assert(json_obj_view(props@) =~= seq![
            ("dataset_url"@, JsonV::Object(seq![("description"@, s("URL of the N-Triples dataset"@)), ("type"@, s("string"@))])),
            ("query"@, JsonV::Object(seq![("description"@, s("SPARQL SELECT or ASK query"@)), ("type"@, s("string"@))])),
        ]);
        assert(json_seq_view(required@) =~= seq![s("query"@)]);
    }
    assert(json_obj_view(m@) =~= seq![
        ("properties"@, json_view(Json::Object(props))),
        ("required"@, JsonV::Array(seq![s("query"@)])),
        ("type"@, s("object"@)),
    ]);
    Json::Object(m)
}

/// The site's name as the manifest gives it.
pub fn site_name(base_url: &str) -> (r: String)
    ensures
        r@ == site_name_spec(base_url@),
{
    let a = replace_str(base_url, "https://", "");
    let b = replace_str(a.as_str(), "http://", "");
    let c = replace_str(b.as_str(), "/", "-");
    proof {
        reveal_strlit("");
        assert(""@ =~= Seq::<char>::empty());
    }
    trim_end_char_exec(c.as_str(), '-')
}

/// Builds the MCP manifest of a site.
pub fn mcp_manifest(base_url: &str, title: &str, search_output: &str, mcp: &McpConfig) -> (j: Json)
    ensures
        j@ == mcp_manifest_spec(base_url@, title@, search_output@, *mcp),
{
    let base = trim_end_char_exec(base_url, '/');
    let wasm_url = match &mcp.wasm_url {
        Some(u) => u.clone(),
        None => {
            let mut w = base.clone();
            w.append("/bin/geoff-sparql.wasm");
            w
        },
    };
    let description = match &mcp.description {
        Some(d) => d.clone(),
        None => DEFAULT_TOOL_DESCRIPTION.to_string(),
    };
    let mut dataset_url = base.clone();
    dataset_url.append("/");
    dataset_url.append(search_output);
    let mut wit_url = base.clone();
    wit_url.append("/bin/geoff-sparql.wit");

    let ghost g_base = trim_end_char(base_url@, '/');
    let ghost g_wasm = match &mcp.wasm_url {
        Some(u) => u@,
        None => g_base + "/bin/geoff-sparql.wasm"@,
    };
    let ghost g_desc = match &mcp.description {
        Some(d) => d@,
        None => DEFAULT_TOOL_DESCRIPTION@,
    };
    assert(wasm_url@ == g_wasm);
    assert(description@ == g_desc);
    assert(dataset_url@ == g_base + "/"@ + search_output@);
    assert(wit_url@ == g_base + "/bin/geoff-sparql.wit"@);
    let mut fixed: Vec<(String, Json)> = Vec::new();
    proof {
        assert(json_obj_view(fixed@) =~= Seq::<(Seq<char>, JsonV)>::empty());
    }
    push_member(&mut fixed, "dataset_url", Json::String(dataset_url));

    let mut tool: Vec<(String, Json)> = Vec::new();
    let no_datasets: Vec<Json> = Vec::new();
    proof {
        assert(json_obj_view(tool@) =~= Seq::<(Seq<char>, JsonV)>::empty());
        assert(json_seq_view(no_datasets@) =~= Seq::<JsonV>::empty());
    }
    push_member(&mut tool, "binary_url", Json::String(wasm_url));
    push_member(&mut tool, "datasets", Json::Array(no_datasets));
    push_member(&mut tool, "description", Json::String(description));
    push_member(&mut tool, "fixed_arguments", Json::Object(fixed));
    push_member(&mut tool, "input_schema", input_schema());
    push_member(&mut tool, "name", text("sparql_query"));
    push_member(&mut tool, "runtime", text("wasm-wasi"));
    push_member(&mut tool, "wit_url", Json::String(wit_url));
    let ghost g_tool = seq![
        ("binary_url"@, s(g_wasm)),
        ("datasets"@, JsonV::Array(Seq::empty())),
        ("description"@, s(g_desc)),
        ("fixed_arguments"@, JsonV::Object(seq![("dataset_url"@, s(g_base + "/"@ + search_output@))])),
        ("input_schema"@, input_schema_spec()),
        ("name"@, s("sparql_query"@)),
        ("runtime"@, s("wasm-wasi"@)),
        ("wit_url"@, s(g_base + "/bin/geoff-sparql.wit"@)),
    ];
    assert(json_obj_view(tool@) =~= g_tool);

    let mut tools: Vec<Json> = Vec::new();
    let t = Json::Object(tool);
    proof {
        assert(json_seq_view(tools@) =~= Seq::<JsonV>::empty());
        lemma_json_seq_view_push(tools@, t);
    }
    tools.push(t);

    let mut kb = "Structured knowledge base for ".to_string();
    kb.append(title);
    let mut name = site_name(base_url);
    name.append("-knowledge");

    let mut m: Vec<(String, Json)> = Vec::new();
    proof {
        assert(json_obj_view(m@) =~= Seq::<(Seq<char>, JsonV)>::empty());
    }
    push_member(&mut m, "description", Json::String(kb));
    push_member(&mut m, "mcp_version", text("1.0"));
    push_member(&mut m, "name", Json::String(name));
    assert(json_seq_view(tools@) =~= seq![JsonV::Object(g_tool)]);
    push_member(&mut m, "tools", Json::Array(tools));
    assert(json_obj_view(m@) =~= seq![
        ("description"@, s("Structured knowledge base for "@ + title@)),
        ("mcp_version"@, s("1.0"@)),
        ("name"@, s(site_name_spec(base_url@) + "-knowledge"@)),
        ("tools"@, JsonV::Array(seq![JsonV::Object(g_tool)])),
    ]);
    Json::Object(m)
}

/// The MCP manifest of a site as pretty-printed JSON text.
pub fn generate_mcp_manifest_json(base_url: &str, title: &str, search_output: &str, mcp: &McpConfig) -> (r: String)
    ensures
        r@ == json_pretty_text(mcp_manifest_spec(base_url@, title@, search_output@, *mcp)),
{
    let manifest = mcp_manifest(base_url, title, search_output, mcp);
    json_to_string_pretty(&manifest)
}

} // verus!
