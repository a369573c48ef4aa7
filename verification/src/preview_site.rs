//! The site a theme preview is served from: its sample pages, its index page's
//! source, its page template, its stylesheet and its configuration.
use vstd::prelude::*;
use crate::dates::{decimal, decimal_string};

verus! {

/// The page template of a preview site: the page's title, date and content, styled by
/// the theme's custom properties (each with a fallback).
pub const PREVIEW_PAGE_TEMPLATE: &'static str = "<!DOCTYPE html>\n<html lang=\"en\">\n<head>\n    <meta charset=\"UTF-8\">\n    <meta name=\"viewport\" content=\"width=device-width, initial-scale=1.0\">\n    <title>{{ title }} — Theme Preview</title>\n    <link rel=\"stylesheet\" href=\"/tokens.css\">\n    <style>\n        * { margin: 0; padding: 0; box-sizing: border-box; }\n        body {\n            font-family: var(--typography-body-font-family, system-ui, -apple-system, sans-serif);\n            font-size: var(--typography-body-font-size, 16px);\n            line-height: var(--typography-body-line-height, 1.6);\n            color: var(--color-text, #1a1a1a);\n            background: var(--color-bg, #ffffff);\n            padding: var(--spacing-lg, 2rem);\n            max-width: 48rem;\n            margin: 0 auto;\n        }\n        nav { margin-bottom: var(--spacing-lg, 2rem); }\n        nav a {\n            color: var(--color-primary, #0066cc);\n            text-decoration: none;\n            margin-right: var(--spacing-sm, 0.5rem);\n        }\n        nav a:hover { text-decoration: underline; }\n        article { margin-top: var(--spacing-md, 1rem); }\n        h1 { font-size: var(--typography-heading-font-size, 2rem); margin-bottom: var(--spacing-md, 1rem); color: var(--color-heading, inherit); }\n        h2 { font-size: 1.5rem; margin-top: var(--spacing-lg, 2rem); margin-bottom: var(--spacing-sm, 0.5rem); }\n        h3 { font-size: 1.25rem; margin-top: var(--spacing-md, 1rem); margin-bottom: var(--spacing-sm, 0.5rem); }\n        p { margin-bottom: var(--spacing-md, 1rem); }\n        blockquote {\n            border-left: 3px solid var(--color-primary, #0066cc);\n            padding-left: var(--spacing-md, 1rem);\n            margin: var(--spacing-md, 1rem) 0;\n            color: var(--color-text-secondary, #555);\n            font-style: italic;\n        }\n        code {\n            font-family: var(--typography-code-font-family, monospace);\n            background: var(--color-surface, #f5f5f5);\n            padding: 0.1em 0.3em;\n            border-radius: var(--border-radius-sm, 3px);\n        }\n        pre { background: var(--color-surface, #f5f5f5); padding: var(--spacing-md, 1rem); border-radius: var(--border-radius-md, 6px); overflow-x: auto; margin-bottom: var(--spacing-md, 1rem); }\n        pre code { background: none; padding: 0; }\n        ul, ol { margin-bottom: var(--spacing-md, 1rem); padding-left: var(--spacing-lg, 2rem); }\n        li { margin-bottom: var(--spacing-xs, 0.25rem); }\n        a { color: var(--color-primary, #0066cc); }\n        time { color: var(--color-text-secondary, #666); font-size: 0.9em; }\n    </style>\n</head>\n<body>\n    <nav><a href=\"/\">← Theme Preview Index</a></nav>\n    <article>\n        <h1>{{ title }}</h1>\n        {% if date %}<time>{{ date }}</time>{% endif %}\n        {{ content }}\n    </article>\n</body>\n</html>\n";

/// The mapping file of a preview site: no type and no property mappings.
pub const PREVIEW_MAPPINGS: &'static str = "[types]\n[properties]\n";

/// The sample page for a content type: frontmatter naming the type, then headings, a quote, lists, code and a link.
pub open spec fn sample_page_spec(ct: Seq<char>, today: Seq<char>) -> Seq<char> {
    "+++\ntitle = \"Sample "@
        + ct
        + "\"\ndate = "@
        + today
        + "\ntemplate = \"page.html\"\ntype = \""@
        + ct
        + "\"\nauthor = \"Preview Author\"\ndescription = \"A sample "@
        + ct
        + " for theme preview.\"\n+++\n\n# Sample "@
        + ct
        + "\n\nThis is a **sample page** of type *"@
        + ct
        + "*, generated for theme preview.\n\n## Subheading\n\nLorem ipsum dolor sit amet, consectetur adipiscing elit. Sed do eiusmod tempor incididunt ut labore et dolore magna aliqua. Ut enim ad minim veniam, quis nostrud exercitation ullamco laboris.\n\n### Third level heading\n\n> A blockquote to show how quotes look with this theme.\n\n- List item one\n- List item two\n- List item three\n\n1. Ordered item one\n2. Ordered item two\n3. Ordered item three\n\nHere is some `inline code` and a code block:\n\n```\nfn main() {\n    println!(\"Hello, theme preview!\");\n}\n```\n\nAnd a [link to somewhere](https://example.com) for good measure.\n"@
}

/// The sample page written for one content type of the theme preview.
pub fn preview_sample_page(ct: &str, today: &str) -> (r: String)
    ensures
        r@ == sample_page_spec(ct@, today@),
{
    let mut r = String::new();
    r.append("+++\ntitle = \"Sample ");
    r.append(ct);
    r.append("\"\ndate = ");
    r.append(today);
    r.append("\ntemplate = \"page.html\"\ntype = \"");
    r.append(ct);
    r.append("\"\nauthor = \"Preview Author\"\ndescription = \"A sample ");
    r.append(ct);
    r.append(" for theme preview.\"\n+++\n\n# Sample ");
    r.append(ct);
    r.append("\n\nThis is a **sample page** of type *");
    r.append(ct);
    r.append("*, generated for theme preview.\n\n## Subheading\n\nLorem ipsum dolor sit amet, consectetur adipiscing elit. Sed do eiusmod tempor incididunt ut labore et dolore magna aliqua. Ut enim ad minim veniam, quis nostrud exercitation ullamco laboris.\n\n### Third level heading\n\n> A blockquote to show how quotes look with this theme.\n\n- List item one\n- List item two\n- List item three\n\n1. Ordered item one\n2. Ordered item two\n3. Ordered item three\n\nHere is some `inline code` and a code block:\n\n```\nfn main() {\n    println!(\"Hello, theme preview!\");\n}\n```\n\nAnd a [link to somewhere](https://example.com) for good measure.\n");
    r
}

/// The sample page used when the mappings name no content type.
pub open spec fn fallback_page_spec(today: Seq<char>) -> Seq<char> {
    "+++\ntitle = \"Sample Page\"\ndate = "@
        + today
        + "\ntemplate = \"page.html\"\ntype = \"Web Page\"\nauthor = \"Preview Author\"\ndescription = \"A sample page for theme preview.\"\n+++\n\n# Sample Page\n\nThis is a **sample page** generated for theme preview.\n\n## Typography\n\nLorem ipsum dolor sit amet, consectetur adipiscing elit. Sed do eiusmod tempor incididunt ut labore et dolore magna aliqua.\n\n### Third level heading\n\n> A blockquote to show how quotes look with this theme.\n\n- List item one\n- List item two\n- List item three\n\nHere is some `inline code` and a code block:\n\n```\nfn main() {\n    println!(\"Hello, theme preview!\");\n}\n```\n\nAnd a [link to somewhere](https://example.com) for good measure.\n"@
}

/// The sample page written when no content type is mapped.
pub fn preview_fallback_page(today: &str) -> (r: String)
    ensures
        r@ == fallback_page_spec(today@),
{
    let mut r = String::new();
    r.append("+++\ntitle = \"Sample Page\"\ndate = ");
    r.append(today);
    r.append("\ntemplate = \"page.html\"\ntype = \"Web Page\"\nauthor = \"Preview Author\"\ndescription = \"A sample page for theme preview.\"\n+++\n\n# Sample Page\n\nThis is a **sample page** generated for theme preview.\n\n## Typography\n\nLorem ipsum dolor sit amet, consectetur adipiscing elit. Sed do eiusmod tempor incididunt ut labore et dolore magna aliqua.\n\n### Third level heading\n\n> A blockquote to show how quotes look with this theme.\n\n- List item one\n- List item two\n- List item three\n\nHere is some `inline code` and a code block:\n\n```\nfn main() {\n    println!(\"Hello, theme preview!\");\n}\n```\n\nAnd a [link to somewhere](https://example.com) for good measure.\n");
    r
}

/// The index page source of a theme preview.
pub open spec fn index_source_spec(theme_name: Seq<char>, today: Seq<char>) -> Seq<char> {
    "+++\ntitle = \"Theme Preview: "@
        + theme_name
        + "\"\ndate = "@
        + today
        + "\ntemplate = \"preview-index.html\"\ntype = \"Web Page\"\n+++\n\nTheme preview index.\n"@
}

/// The source of the index page of a preview site, rendered by its own template.
pub fn preview_index_source(theme_name: &str, today: &str) -> (r: String)
    ensures
        r@ == index_source_spec(theme_name@, today@),
{
    let mut r = String::new();
    r.append("+++\ntitle = \"Theme Preview: ");
    r.append(theme_name);
    r.append("\"\ndate = ");
    r.append(today);
    r.append("\ntemplate = \"preview-index.html\"\ntype = \"Web Page\"\n+++\n\nTheme preview index.\n");
    r
}

/// The preview stylesheet: the critical and then the deferred custom properties in one `:root` rule.
pub open spec fn preview_css_spec(critical_css: Seq<char>, css: Seq<char>) -> Seq<char> {
    ":root {\n"@ + critical_css + css + "}\n"@
}

/// The stylesheet a theme preview serves.
pub fn preview_css(critical_css: &str, css: &str) -> (r: String)
    ensures
        r@ == preview_css_spec(critical_css@, css@),
{
    let mut r = String::new();
    r.append(":root {\n");
    r.append(critical_css);
    r.append(css);
    r.append("}\n");
    r
}

/// The configuration of a preview site served on a port.
pub open spec fn preview_config_spec(port: nat, theme_name: Seq<char>) -> Seq<char> {
    "base_url = \"http://localhost:"@ + decimal(port) + "\"\ntitle = \"Theme Preview: "@ + theme_name
        + "\"\ncontent_dir = \"content\"\noutput_dir = \"dist\"\ntemplate_dir = \"templates\"\n"@
}

/// The `geoff.toml` of a preview site.
pub fn preview_config(port: u16, theme_name: &str) -> (r: String)
    ensures
        r@ == preview_config_spec(port as nat, theme_name@),
{
    let mut r = String::new();
    r.append("base_url = \"http://localhost:");
    let p = decimal_string(port as u64);
    r.append(p.as_str());
    r.append("\"\ntitle = \"Theme Preview: ");
    r.append(theme_name);
    r.append("\"\ncontent_dir = \"content\"\noutput_dir = \"dist\"\ntemplate_dir = \"templates\"\n");
    r
}

} // verus!
