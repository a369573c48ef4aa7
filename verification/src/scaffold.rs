//! The text of new sites and new content files.
use vstd::prelude::*;
use crate::text::{chars_of, push_char};

verus! {

/// `geoff.toml` of a new site.
pub const DEFAULT_CONFIG: &'static str = "base_url = \"http://localhost:8080\"
title = \"My Geoff Site\"
content_dir = \"content\"
output_dir = \"dist\"
template_dir = \"templates\"
";

/// `templates/page.html` of a new site.
pub const DEFAULT_PAGE_TEMPLATE: &'static str = "<!DOCTYPE html>
<html lang=\"en\">
<head>
    <meta charset=\"UTF-8\">
    <meta name=\"viewport\" content=\"width=device-width, initial-scale=1.0\">
    <title>{{ title }}</title>
</head>
<body>
    <article>
        <h1>{{ title }}</h1>
        {% if date %}<time>{{ date }}</time>{% endif %}
        {{ content }}
    </article>
    {% if json_ld %}
    <script type=\"application/ld+json\">
    {{ json_ld }}
    </script>
    {% endif %}
</body>
</html>
";

/// `content/hello-world.md` of a new site.
pub const DEFAULT_SAMPLE_POST: &'static str = "+++
title = \"Hello World\"
date = 2026-04-10
template = \"page.html\"
type = \"Blog Post\"
author = \"Anonymous\"
+++

# Hello World

Welcome to your new Geoff site! This is a sample blog post.
";

/// A file stem as a title: each `-` and `_` becomes a space.
pub open spec fn title_from_stem_spec(stem: Seq<char>) -> Seq<char> {
    Seq::new(stem.len(), |i: int| if stem[i] == '-' || stem[i] == '_' { ' ' } else { stem[i] })
}

/// The title a new content file gets from its file name.
pub fn title_from_stem(stem: &str) -> (r: String)
    ensures
        r@ == title_from_stem_spec(stem@),
{
    let v = chars_of(stem);
    let mut r = String::new();
    let mut i: usize = 0;
    while i < v.len()
        invariant
            i <= v.len(),
            v@ == stem@,
            r@ == title_from_stem_spec(stem@).take(i as int),
        decreases v.len() - i,
    {
        let c = v[i];
        let d = if c == '-' || c == '_' { ' ' } else { c };
        push_char(&mut r, d);
        proof {
            assert(r@ =~= title_from_stem_spec(stem@).take(i + 1));
        }
        i = i + 1;
    }
    proof {
        assert(title_from_stem_spec(stem@).take(v.len() as int) =~= title_from_stem_spec(stem@));
    }
    r
}

/// The text of a new content file: TOML frontmatter with its title, date, the default
/// template and its content type, then a heading and a line to replace.
pub open spec fn new_page_spec(title: Seq<char>, today: Seq<char>, content_type: Seq<char>) -> Seq<char> {
    "+++\ntitle = \""@ + title + "\"\ndate = "@ + today + "\ntemplate = \"page.html\"\ntype = \""@
        + content_type + "\"\n+++\n\n# "@ + title + "\n\nWrite your content here.\n"@
}

/// Builds the text of a new content file.
pub fn new_page_source(title: &str, today: &str, content_type: &str) -> (r: String)
    ensures
        r@ == new_page_spec(title@, today@, content_type@),
{
    let mut r = "+++\ntitle = \"".to_string();
    r.append(title);
    r.append("\"\ndate = ");
    r.append(today);
    r.append("\ntemplate = \"page.html\"\ntype = \"");
    r.append(content_type);
    r.append("\"\n+++\n\n# ");
    r.append(title);
    r.append("\n\nWrite your content here.\n");
    r
}

} // verus!
