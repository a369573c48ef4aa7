use geoff::preview_site::{preview_config, preview_css, preview_fallback_page, preview_index_source, preview_sample_page, PREVIEW_PAGE_TEMPLATE};

#[test]
fn sample_page_names_its_type() {
    let page = preview_sample_page("Blog Post", "2026-01-02");
    assert!(page.starts_with("+++\ntitle = \"Sample Blog Post\"\ndate = 2026-01-02\ntemplate = \"page.html\"\ntype = \"Blog Post\"\n"));
    assert!(page.contains("This is a **sample page** of type *Blog Post*, generated for theme preview."));
    assert!(page.contains("fn main() {\n    println!(\"Hello, theme preview!\");\n}"));
    assert!(page.ends_with("And a [link to somewhere](https://example.com) for good measure.\n"));
}

#[test]
fn fallback_and_index_pages() {
    assert!(preview_fallback_page("2026-01-02").starts_with("+++\ntitle = \"Sample Page\"\ndate = 2026-01-02\n"));
    assert_eq!(
        preview_index_source("ocean", "2026-01-02"),
        "+++\ntitle = \"Theme Preview: ocean\"\ndate = 2026-01-02\ntemplate = \"preview-index.html\"\ntype = \"Web Page\"\n+++\n\nTheme preview index.\n"
    );
}

#[test]
fn preview_css_and_config() {
    assert_eq!(preview_css("  --a-critical: 1;\n", "  --b: 2;\n"), ":root {\n  --a-critical: 1;\n  --b: 2;\n}\n");
    assert_eq!(
        preview_config(3000, "ocean"),
        "base_url = \"http://localhost:3000\"\ntitle = \"Theme Preview: ocean\"\ncontent_dir = \"content\"\noutput_dir = \"dist\"\ntemplate_dir = \"templates\"\n"
    );
    assert!(PREVIEW_PAGE_TEMPLATE.contains("{{ title }} — Theme Preview"));
}
