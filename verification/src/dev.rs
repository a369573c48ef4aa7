//! What the development server answers from the pages it keeps in memory: the
//! keys it serves them under, the live-reload script it adds to HTML, and the
//! content types of what it serves.
use vstd::prelude::*;
use crate::strmap::StrMap;
use crate::text::{chars_of, ends_with, ends_with_exec, find_exec, index_of_char, lemma_find_from_result, push_char, rfind,
    rfind_exec, starts_with, starts_with_exec, str_ends_with, str_eq, string_of_range, strip_prefix, strip_suffix, subvec,
    trim_end_char, trim_end_char_exec};

verus! {

/// The script added to every HTML page the development server serves: it reloads
/// the page when the server says so, and when the connection drops.
pub const HOT_RELOAD_SCRIPT: &'static str = "<script>\n(function() {\n    const ws = new WebSocket(`ws://${location.host}/ws`);\n    ws.onmessage = function(event) {\n        if (event.data === 'reload') {\n            location.reload();\n        }\n    };\n    ws.onclose = function() {\n        setTimeout(function() { location.reload(); }, 1000);\n    };\n})();\n</script>";

/// `p` with every backslash written as `/`.
pub open spec fn forward_slashes(p: Seq<char>) -> Seq<char> {
    p.map_values(|c: char| if c == '\\' { '/' } else { c })
}

/// Writes every backslash of a path as `/`.
pub fn to_forward_slashes(p: &str) -> (r: String)
    ensures
        r@ == forward_slashes(p@),
{
    let v = chars_of(p);
    let mut r = String::new();
    let mut i: usize = 0;
    while i < v.len()
        invariant
            i <= v@.len(),
            r@ == forward_slashes(v@.take(i as int)),
        decreases v@.len() - i,
    {
        let c = if v[i] == '\\' { '/' } else { v[i] };
        push_char(&mut r, c);
        i = i + 1;
        assert(r@ =~= forward_slashes(v@.take(i as int)));
    }
    assert(v@.take(v@.len() as int) =~= v@);
    r
}

/// The key a rendered page is served under: `/` for `index.html`, else `/`
/// followed by its output path, separators written as `/`.
pub open spec fn dev_page_key_spec(output_path: Seq<char>) -> Seq<char> {
    let p = forward_slashes(output_path);
    if p == "index.html"@ {
        "/"@
    } else {
        "/"@ + p
    }
}

/// The key a rendered page is served under.
pub fn dev_page_key(output_path: &str) -> (r: String)
    ensures
        r@ == dev_page_key_spec(output_path@),
{
    let p = to_forward_slashes(output_path);
    if str_eq(p.as_str(), "index.html") {
        "/".to_string()
    } else {
        let mut r = "/".to_string();
        r.append(p.as_str());
        r
    }
}

/// The rendered pages as the development server keeps them: each under its key;
/// a later page with the same key replaces an earlier one.
pub open spec fn dev_pages_spec(rendered: Seq<(Seq<char>, Seq<char>)>) -> Map<Seq<char>, Seq<char>>
    decreases rendered.len(),
{
    if rendered.len() == 0 {
        Map::empty()
    } else {
        dev_pages_spec(rendered.drop_last()).insert(
            dev_page_key_spec(rendered.last().0),
            rendered.last().1,
        )
    }
}

pub open spec fn pair_views(v: Seq<(String, String)>) -> Seq<(Seq<char>, Seq<char>)> {
    v.map_values(|e: (String, String)| (e.0@, e.1@))
}

/// Keys the rendered pages (output path, HTML) by the URL path they are served under.
pub fn dev_page_map(rendered: &Vec<(String, String)>) -> (m: StrMap)
    ensures
        m.wf(),
        m@ == dev_pages_spec(pair_views(rendered@)),
{
    let mut m = StrMap::new();
    let mut i: usize = 0;
    while i < rendered.len()
        invariant
            i <= rendered@.len(),
            m.wf(),
            m@ == dev_pages_spec(pair_views(rendered@).take(i as int)),
        decreases rendered@.len() - i,
    {
        proof {
            assert(pair_views(rendered@).take(i + 1).drop_last() =~= pair_views(rendered@).take(i as int));
        }
        let key = dev_page_key(rendered[i].0.as_str());
        m.insert(key, rendered[i].1.clone());
        i = i + 1;
    }
    assert(pair_views(rendered@).take(rendered@.len() as int) =~= pair_views(rendered@));
    m
}

/// The key of a directory's index page for a request path.
pub open spec fn index_key(path: Seq<char>) -> Seq<char> {
    if ends_with(path, "/"@) {
        path + "index.html"@
    } else {
        path + "/index.html"@
    }
}

/// The page a request path finds: the page under the path itself, else under the
/// path with `.html`, else the index page of the path as a directory.
pub open spec fn cached_page(pages: Map<Seq<char>, Seq<char>>, path: Seq<char>) -> Option<Seq<char>> {
    if pages.contains_key(path) {
        Some(pages[path])
    } else if pages.contains_key(path + ".html"@) {
        Some(pages[path + ".html"@])
    } else if pages.contains_key(index_key(path)) {
        Some(pages[index_key(path)])
    } else {
        None
    }
}

/// Finds the page a request path asks for.
pub fn lookup_page<'a>(pages: &'a StrMap, path: &str) -> (r: Option<&'a String>)
    requires
        pages.wf(),
    ensures
        match r {
            Some(s) => cached_page(pages@, path@) == Some(s@),
            None => cached_page(pages@, path@) is None,
        },
{
    if let Some(s) = pages.get(path) {
        return Some(s);
    }
    let mut with_html = path.to_string();
    with_html.append(".html");
    if let Some(s) = pages.get(with_html.as_str()) {
        return Some(s);
    }
    let mut with_index = path.to_string();
    if str_ends_with(path, "/") {
        with_index.append("index.html");
    } else {
        with_index.append("/index.html");
    }
    pages.get(with_index.as_str())
}

/// HTML with the live-reload script put before its last `</body>`, followed by a
/// line break; without a `</body>`, the script goes at the end after a line break.
pub open spec fn with_hot_reload(html: Seq<char>) -> Seq<char> {
    match rfind(html, "</body>"@) {
        Some(pos) => html.take(pos) + HOT_RELOAD_SCRIPT@ + "\n"@ + html.skip(pos),
        None => html + "\n"@ + HOT_RELOAD_SCRIPT@,
    }
}

/// Adds the live-reload script to an HTML page.
pub fn inject_hot_reload(html: &str) -> (r: String)
    ensures
        r@ == with_hot_reload(html@),
{
    let v = chars_of(html);
    let pat = chars_of("</body>");
    match rfind_exec(&v, &pat) {
        Some(pos) => {
            let mut r = string_of_range(&v, 0, pos);
            r.append(HOT_RELOAD_SCRIPT);
            r.append("\n");
            let rest = string_of_range(&v, pos, v.len());
            r.append(rest.as_str());
            assert(v@.subrange(0, pos as int) =~= v@.take(pos as int));
            assert(v@.subrange(pos as int, v@.len() as int) =~= v@.skip(pos as int));
            r
        },
        None => {
            let mut r = html.to_string();
            r.append("\n");
            r.append(HOT_RELOAD_SCRIPT);
            r
        },
    }
}

/// A cached file that is served as it is, not as HTML: JSON and WIT files, and the
/// MCP discovery paths.
pub open spec fn is_raw_file_path(path: Seq<char>) -> bool {
    ||| ends_with(path, ".json"@)
    ||| ends_with(path, ".wit"@)
    ||| path == "/.well-known/mcp"@
    ||| path == "/.mcp.json"@
}

/// What the development server answers with: a content type and a body.
pub struct DevReply {
    pub content_type: String,
    pub body: String,
}

/// The reply for a cached page: JSON and WIT files as they are (WIT as plain text,
/// the rest as JSON), N-Triples as they are, anything else as HTML with the
/// live-reload script.
pub open spec fn page_reply_spec(path: Seq<char>, content: Seq<char>) -> (Seq<char>, Seq<char>) {
    if is_raw_file_path(path) {
        (if ends_with(path, ".wit"@) { "text/plain"@ } else { "application/json"@ }, content)
    } else if ends_with(path, ".nt"@) {
        ("application/n-triples"@, content)
    } else {
        ("text/html; charset=utf-8"@, with_hot_reload(content))
    }
}

/// Answers a request path from the cached pages; `None` when no page matches, and
/// the server then looks in the static directory.
pub fn serve_page(pages: &StrMap, path: &str) -> (r: Option<DevReply>)
    requires
        pages.wf(),
    ensures
        match (r, cached_page(pages@, path@)) {
            (Some(reply), Some(content)) => (reply.content_type@, reply.body@) == page_reply_spec(path@, content),
            (None, None) => true,
            _ => false,
        },
{
    let content = match lookup_page(pages, path) {
        Some(c) => c,
        None => return None,
    };
    let is_wit = str_ends_with(path, ".wit");
    if str_ends_with(path, ".json") || is_wit || str_eq(path, "/.well-known/mcp") || str_eq(path, "/.mcp.json") {
        let ct = if is_wit { "text/plain" } else { "application/json" };
        return Some(DevReply { content_type: ct.to_string(), body: content.clone() });
    }
    if str_ends_with(path, ".nt") {
        return Some(DevReply { content_type: "application/n-triples".to_string(), body: content.clone() });
    }
    Some(DevReply { content_type: "text/html; charset=utf-8".to_string(), body: inject_hot_reload(content.as_str()) })
}

/// The content type of a static file by its extension.
pub open spec fn static_content_type_spec(ext: Seq<char>) -> Seq<char> {
    if ext == "css"@ { "text/css"@ }
    else if ext == "js"@ { "application/javascript"@ }
    else if ext == "svg"@ { "image/svg+xml"@ }
    else if ext == "png"@ { "image/png"@ }
    else if ext == "jpg"@ || ext == "jpeg"@ { "image/jpeg"@ }
    else if ext == "ico"@ { "image/x-icon"@ }
    else if ext == "woff2"@ { "font/woff2"@ }
    else if ext == "woff"@ { "font/woff"@ }
    else if ext == "json"@ { "application/json"@ }
    else if ext == "xml"@ { "application/xml"@ }
    else if ext == "wasm"@ { "application/wasm"@ }
    else if ext == "wit"@ { "text/plain"@ }
    else { "application/octet-stream"@ }
}

/// The content type a static file is served with, by its extension (empty when it has none).
pub fn static_content_type(ext: &str) -> (r: &'static str)
    ensures
        r@ == static_content_type_spec(ext@),
{
    if str_eq(ext, "css") { "text/css" }
    else if str_eq(ext, "js") { "application/javascript" }
    else if str_eq(ext, "svg") { "image/svg+xml" }
    else if str_eq(ext, "png") { "image/png" }
    else if str_eq(ext, "jpg") || str_eq(ext, "jpeg") { "image/jpeg" }
    else if str_eq(ext, "ico") { "image/x-icon" }
    else if str_eq(ext, "woff2") { "font/woff2" }
    else if str_eq(ext, "woff") { "font/woff" }
    else if str_eq(ext, "json") { "application/json" }
    else if str_eq(ext, "xml") { "application/xml" }
    else if str_eq(ext, "wasm") { "application/wasm" }
    else if str_eq(ext, "wit") { "text/plain" }
    else { "application/octet-stream" }
}


// ---------------------------------------------------------------------------
// Search partitions
// ---------------------------------------------------------------------------

/// The search partition of a named graph written `<urn:geoff:content:path>`: the first
/// segment of the path; none when the graph is not a content graph or its path has no `/`.
pub open spec fn partition_key_spec(graph: Seq<char>) -> Option<Seq<char>> {
    match strip_prefix(graph, "<urn:geoff:content:"@) {
        Some(rest) => match strip_suffix(rest, ">"@) {
            Some(path) => match index_of_char(path, '/') {
                Some(i) => Some(path.take(i)),
                None => None,
            },
            None => None,
        },
        None => None,
    }
}

/// The search partition a content graph belongs to.
pub fn search_partition_key(graph: &str) -> (r: Option<String>)
    ensures
        match r {
            Some(k) => partition_key_spec(graph@) == Some(k@),
            None => partition_key_spec(graph@) is None,
        },
{
    proof {
        reveal_strlit("<urn:geoff:content:");
        reveal_strlit(">");
    }
    let v = chars_of(graph);
    let pre = chars_of("<urn:geoff:content:");
    let suf = chars_of(">");
    assert(pre@.len() == 19 && suf@.len() == 1);
    if !starts_with_exec(&v, &pre) || !ends_with_exec(&v, &suf) || v.len() < 20 {
        proof {
            if starts_with(v@, pre@) {
                let rest = v@.subrange(19, v@.len() as int);
                assert(strip_prefix(v@, "<urn:geoff:content:"@) == Some(rest));
                if rest.len() > 0 && ends_with(rest, suf@) {
                    assert(rest.subrange(rest.len() - 1, rest.len() as int) =~= v@.subrange(v@.len() - 1, v@.len() as int));
                    assert(ends_with(v@, suf@));
                    assert(v@.len() >= 20);
                }
                assert(!ends_with(rest, suf@));
                assert(strip_suffix(rest, ">"@) is None);
            }
        }
        return None;
    }
    let path = subvec(&v, 19, v.len() - 1);
    proof {
        let rest = v@.subrange(19, v@.len() as int);
        assert(rest.subrange(rest.len() - 1, rest.len() as int) =~= v@.subrange(v@.len() - 1, v@.len() as int));
        assert(ends_with(rest, suf@));
        assert(rest.subrange(0, rest.len() - 1) =~= path@);
        lemma_find_from_result(path@, seq!['/'], 0);
    }
    let slash: Vec<char> = vec!['/'];
    assert(slash@ =~= seq!['/']);
    match find_exec(&path, &slash) {
        Some(i) => {
            let k = string_of_range(&path, 0, i);
            assert(path@.subrange(0, i as int) =~= path@.take(i as int));
            Some(k)
        },
        None => None,
    }
}

/// The key a search partition is served under.
pub open spec fn partition_path_spec(key: Seq<char>) -> Seq<char> {
    "/search/"@ + key + ".nt"@
}

/// The key a search partition is served under: `/search/{key}.nt`.
pub fn search_partition_path(key: &str) -> (r: String)
    ensures
        r@ == partition_path_spec(key@),
{
    let mut r = "/search/".to_string();
    r.append(key);
    r.append(".nt");
    r
}

/// The two manifest lines of a partition: it is a search graph, with its name.
pub open spec fn manifest_lines(base: Seq<char>, key: Seq<char>) -> Seq<char> {
    "<"@ + base + "/search/"@ + key + ".nt> <http://www.w3.org/1999/02/22-rdf-syntax-ns#type> <urn:geoff:SearchGraph> .\n"@
        + "<"@ + base + "/search/"@ + key + ".nt> <urn:geoff:graphName> \""@ + key + "\" .\n"@
}

/// The manifest of the non-empty partition keys, in order, under a base URL without
/// its trailing slashes.
pub open spec fn manifest_spec(base: Seq<char>, keys: Seq<Seq<char>>) -> Seq<char>
    decreases keys.len(),
{
    if keys.len() == 0 {
        Seq::empty()
    } else {
        manifest_spec(base, keys.drop_last()) + if keys.last().len() == 0 {
            Seq::empty()
        } else {
            manifest_lines(base, keys.last())
        }
    }
}

/// The N-Triples manifest listing the search partitions.
pub fn search_manifest(base_url: &str, keys: &Vec<String>) -> (r: String)
    ensures
        r@ == manifest_spec(trim_end_char(base_url@, '/'), keys@.map_values(|k: String| k@)),
{
    let base = trim_end_char_exec(base_url, '/');
    let ghost ks = keys@.map_values(|k: String| k@);
    let mut r = String::new();
    let mut i: usize = 0;
    while i < keys.len()
        invariant
            i <= keys@.len(),
            ks == keys@.map_values(|k: String| k@),
            base@ == trim_end_char(base_url@, '/'),
            r@ == manifest_spec(base@, ks.take(i as int)),
        decreases keys@.len() - i,
    {
        proof {
            assert(ks.take(i + 1).drop_last() =~= ks.take(i as int));
        }
        let key = keys[i].as_str();
        if !key.is_empty() {
            let ghost before = r@;
            r.append("<");
            r.append(base.as_str());
            r.append("/search/");
            r.append(key);
            r.append(".nt> <http://www.w3.org/1999/02/22-rdf-syntax-ns#type> <urn:geoff:SearchGraph> .\n");
            r.append("<");
            r.append(base.as_str());
            r.append("/search/");
            r.append(key);
            r.append(".nt> <urn:geoff:graphName> \"");
            r.append(key);
            r.append("\" .\n");
            assert(r@ =~= before + manifest_lines(base@, key@));
        } else {
            assert(r@ =~= r@ + Seq::<char>::empty());
        }
        i = i + 1;
    }
    assert(ks.take(keys@.len() as int) =~= ks);
    r
}

} // verus!
