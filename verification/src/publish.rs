//! Helpers for publishing the built site to a Solid pod.
use vstd::prelude::*;
use crate::text::{ends_with, push_char, starts_with, str_eq, str_ends_with, str_starts_with, chars_of,
    char_is_alphanumeric, is_white_space, to_lowercase, trim_char, trim_char_exec, unicode_is_alphanumeric,
    unicode_lowercase};
use crate::frontmatter::is_white_space_char;

verus! {

/// A pod URL with `https://` added when it does not start with `http`, and a
/// trailing `/` added when missing.
pub open spec fn normalize_pod_url_spec(url: Seq<char>) -> Seq<char> {
    let u = if starts_with(url, "http"@) { url } else { "https://"@ + url };
    if ends_with(u, seq!['/']) { u } else { u.push('/') }
}

/// Normalize a pod URL to start with a scheme and end with `/`.
pub fn normalize_pod_url(url: &str) -> (r: String)
    ensures
        r@ == normalize_pod_url_spec(url@),
{
    let mut u = if str_starts_with(url, "http") {
        url.to_owned()
    } else {
        let mut s = "https://".to_owned();
        s.append(url);
        s
    };
    if !str_ends_with(u.as_str(), "/") {
        push_char(&mut u, '/');
    }
    proof {
        reveal_strlit("/");
        assert("/"@ =~= seq!['/']);
    }
    u
}

/// The MIME content type for a file extension.
pub open spec fn mime_spec(ext: Seq<char>) -> Seq<char> {
    if ext == "html"@ || ext == "htm"@ {
        "text/html"@
    } else if ext == "css"@ {
        "text/css"@
    } else if ext == "js"@ || ext == "mjs"@ {
        "application/javascript"@
    } else if ext == "json"@ || ext == "jsonld"@ {
        "application/json"@
    } else if ext == "xml"@ {
        "application/xml"@
    } else if ext == "svg"@ {
        "image/svg+xml"@
    } else if ext == "png"@ {
        "image/png"@
    } else if ext == "jpg"@ || ext == "jpeg"@ {
        "image/jpeg"@
    } else if ext == "gif"@ {
        "image/gif"@
    } else if ext == "webp"@ {
        "image/webp"@
    } else if ext == "ico"@ {
        "image/x-icon"@
    } else if ext == "woff"@ {
        "font/woff"@
    } else if ext == "woff2"@ {
        "font/woff2"@
    } else if ext == "ttf"@ {
        "font/ttf"@
    } else if ext == "otf"@ {
        "font/otf"@
    } else if ext == "txt"@ {
        "text/plain"@
    } else if ext == "nt"@ {
        "application/n-triples"@
    } else if ext == "ttl"@ {
        "text/turtle"@
    } else {
        "application/octet-stream"@
    }
}

/// Map a file extension to its MIME content type.
pub fn mime_for_extension(ext: &str) -> (r: &'static str)
    ensures
        r@ == mime_spec(ext@),
{
    if str_eq(ext, "html") || str_eq(ext, "htm") {
        "text/html"
    } else if str_eq(ext, "css") {
        "text/css"
    } else if str_eq(ext, "js") || str_eq(ext, "mjs") {
        "application/javascript"
    } else if str_eq(ext, "json") || str_eq(ext, "jsonld") {
        "application/json"
    } else if str_eq(ext, "xml") {
        "application/xml"
    } else if str_eq(ext, "svg") {
        "image/svg+xml"
    } else if str_eq(ext, "png") {
        "image/png"
    } else if str_eq(ext, "jpg") || str_eq(ext, "jpeg") {
        "image/jpeg"
    } else if str_eq(ext, "gif") {
        "image/gif"
    } else if str_eq(ext, "webp") {
        "image/webp"
    } else if str_eq(ext, "ico") {
        "image/x-icon"
    } else if str_eq(ext, "woff") {
        "font/woff"
    } else if str_eq(ext, "woff2") {
        "font/woff2"
    } else if str_eq(ext, "ttf") {
        "font/ttf"
    } else if str_eq(ext, "otf") {
        "font/otf"
    } else if str_eq(ext, "txt") {
        "text/plain"
    } else if str_eq(ext, "nt") {
        "application/n-triples"
    } else if str_eq(ext, "ttl") {
        "text/turtle"
    } else {
        "application/octet-stream"
    }
}

/// A name made of a string's lower-cased letters and digits (and dashes, when kept),
/// every other character a dash, without leading or trailing dashes.
pub open spec fn slug_spec(s: Seq<char>, keep_dash: bool) -> Seq<char> {
    let l = unicode_lowercase(s);
    trim_char(
        Seq::new(l.len(), |i: int| if unicode_is_alphanumeric(l[i]) || (keep_dash && l[i] == '-') { l[i] } else { '-' }),
        '-',
    )
}

fn slug(s: &str, keep_dash: bool) -> (r: String)
    ensures
        r@ == slug_spec(s@, keep_dash),
{
    let lower = to_lowercase(s);
    let v = chars_of(lower.as_str());
    let ghost target = Seq::new(v@.len(), |i: int| if unicode_is_alphanumeric(v@[i]) || (keep_dash && v@[i] == '-') { v@[i] } else { '-' });
    let mut out = String::new();
    let mut i: usize = 0;
    while i < v.len()
        invariant
            i <= v.len(),
            target == Seq::new(v@.len(), |i: int| if unicode_is_alphanumeric(v@[i]) || (keep_dash && v@[i] == '-') { v@[i] } else { '-' }),
            out@ == target.take(i as int),
        decreases v.len() - i,
    {
        let c = v[i];
        let d = if char_is_alphanumeric(c) || (keep_dash && c == '-') { c } else { '-' };
        push_char(&mut out, d);
        proof {
            assert(out@ =~= target.take(i + 1));
        }
        i = i + 1;
    }
    proof {
        assert(target.take(v@.len() as int) =~= target);
    }
    trim_char_exec(out.as_str(), '-')
}

/// The file name stem of a site's download archive, from its title.
pub fn archive_slug(title: &str) -> (r: String)
    ensures
        r@ == slug_spec(title@, false),
{
    slug(title, false)
}

/// The first whitespace-separated word of a string, if it has one.
pub open spec fn first_word(s: Seq<char>) -> Option<Seq<char>> {
    if exists|i: int| 0 <= i < s.len() && !is_white_space(s[i]) {
        let a = choose|a: int| 0 <= a < s.len() && !is_white_space(s[a]) && forall|j: int| 0 <= j < a ==> is_white_space(s[j]);
        let b = if exists|k: int| a < k < s.len() && is_white_space(s[k]) {
            choose|k: int| a < k < s.len() && is_white_space(s[k]) && forall|j: int| a <= j < k ==> !is_white_space(s[j])
        } else {
            s.len() as int
        };
        Some(s.subrange(a, b))
    } else {
        None
    }
}

fn first_word_exec(s: &str) -> (r: Option<String>)
    ensures
        match r {
            Some(w) => first_word(s@) == Some(w@),
            None => first_word(s@) is None,
        },
{
    let v = chars_of(s);
    let mut a: usize = 0;
    while a < v.len() && is_white_space_char(v[a])
        invariant
            a <= v.len(),
            v@ == s@,
            forall|j: int| 0 <= j < a ==> is_white_space(v@[j]),
        decreases v.len() - a,
    {
        a = a + 1;
    }
    if a == v.len() {
        return None;
    }
    let mut b: usize = a;
    while b < v.len() && !is_white_space_char(v[b])
        invariant
            a <= b <= v.len(),
            v@ == s@,
            forall|j: int| a <= j < b ==> !is_white_space(v@[j]),
        decreases v.len() - b,
    {
        b = b + 1;
    }
    let w = crate::text::string_of_range(&v, a, b);
    proof {
        let ca = choose|x: int| 0 <= x < s@.len() && !is_white_space(s@[x]) && forall|j: int| 0 <= j < x ==> is_white_space(s@[j]);
        assert(ca == a as int) by {
            if ca < a {
            } else if ca > a {
                assert(!is_white_space(s@[a as int]));
            }
        }
        if b < v.len() {
            assert(is_white_space(s@[b as int]));
            let cb = choose|k: int| a < k < s@.len() && is_white_space(s@[k]) && forall|j: int| a <= j < k ==> !is_white_space(s@[j]);
            assert(cb == b as int) by {
                if cb < b {
                } else if cb > b {
                    assert(is_white_space(s@[b as int]));
                }
            }
        } else {
            assert(!exists|k: int| a < k < s@.len() && is_white_space(s@[k]));
        }
        assert(w@ =~= s@.subrange(a as int, b as int));
    }
    Some(w)
}

/// The application name of a deployment: the given name, else the first word of the
/// site title (else `geoff-site`), as a slug that keeps dashes.
pub open spec fn app_name_spec(name: Option<Seq<char>>, title: Seq<char>) -> Seq<char> {
    let base = match name {
        Some(n) => n,
        None => match first_word(title) {
            Some(w) => w,
            None => "geoff-site"@,
        },
    };
    slug_spec(base, true)
}

/// The application name a deployment is created under.
pub fn deploy_app_name(name: Option<&str>, title: &str) -> (r: String)
    ensures
        r@ == app_name_spec(match name { Some(n) => Some(n@), None => None }, title@),
{
    match name {
        Some(n) => slug(n, true),
        None => match first_word_exec(title) {
            Some(w) => slug(w.as_str(), true),
            None => {
                proof {
                    reveal_strlit("geoff-site");
                }
                slug("geoff-site", true)
            },
        },
    }
}

} // verus!
