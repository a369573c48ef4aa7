//! Site configuration types (the values of `geoff.toml`) and their defaults.
//!
//! Reading and deserializing the file happens around the library; these are
//! the plain values the rest of the library reads.
use vstd::prelude::*;

verus! {

/// Plugin runtime type.
#[derive(Debug, Clone, Copy, PartialEq, Eq, Structural)]
pub enum PluginRuntime {
    Rust,
    Deno,
}

/// Client-side search configuration.
#[derive(Debug, Clone)]
pub struct SearchConfig {
    pub enabled: bool,
    pub output: String,
    /// Partitioning strategy for faceted search graphs.
    pub partition: Option<String>,
    /// Generate a built-in /search page.
    pub page: bool,
    /// Title for the search page.
    pub title: Option<String>,
    /// Custom template for the search page.
    pub template: Option<String>,
    /// Maximum results per query.
    pub limit: u32,
    /// Placeholder text for the search input.
    pub placeholder: String,
}

impl Default for SearchConfig {
    fn default() -> (c: Self)
        ensures
            !c.enabled,
            c.output@ == Seq::<char>::empty(),
            c.partition is None,
            !c.page,
            c.title is None,
            c.template is None,
            c.limit == 0,
            c.placeholder@ == Seq::<char>::empty(),
    {
        SearchConfig {
            enabled: false,
            output: String::new(),
            partition: None,
            page: false,
            title: None,
            template: None,
            limit: 0,
            placeholder: String::new(),
        }
    }
}

/// Default search page title when the field is absent from the file.
pub fn default_search_title() -> (r: Option<String>)
    ensures
        r matches Some(t) && t@ == "Search"@,
{
    Some("Search".to_owned())
}

/// Default result limit when the field is absent from the file.
pub fn default_search_limit() -> (r: u32)
    ensures
        r == 50,
{
    50
}

/// Default search placeholder when the field is absent from the file.
pub fn default_search_placeholder() -> (r: String)
    ensures
        r@ == "Search…"@,
{
    "Search…".to_owned()
}

/// Default search graph file when the field is absent from the file.
pub fn default_search_output() -> (r: String)
    ensures
        r@ == "search.nt"@,
{
    "search.nt".to_owned()
}

/// Image optimization configuration.
#[derive(Debug, Clone)]
pub struct ImageOptConfig {
    /// Convert PNG/JPEG images to WebP format.
    pub webp: bool,
    /// WebP quality (0-100).
    pub quality: u8,
    /// Maximum width in pixels; wider images are resized proportionally.
    pub max_width: Option<u32>,
}

impl Default for ImageOptConfig {
    fn default() -> (c: Self)
        ensures
            !c.webp,
            c.quality == 80,
            c.max_width is None,
    {
        ImageOptConfig { webp: false, quality: default_image_quality(), max_width: None }
    }
}

/// Default WebP quality.
pub fn default_image_quality() -> (q: u8)
    ensures
        q == 80,
{
    80
}

/// Asset optimization configuration.
#[derive(Debug, Clone)]
pub struct OptimizeConfig {
    /// Minify CSS files in the output directory.
    pub minify_css: bool,
    /// Minify JS files in the output directory.
    pub minify_js: bool,
    /// Add content hashes to CSS/JS filenames and update HTML references.
    pub hash_assets: bool,
    /// Image optimization settings.
    pub images: ImageOptConfig,
}

impl Default for OptimizeConfig {
    fn default() -> (c: Self)
        ensures
            !c.minify_css,
            !c.minify_js,
            !c.hash_assets,
            !c.images.webp,
            c.images.quality == 80,
            c.images.max_width is None,
    {
        OptimizeConfig {
            minify_css: false,
            minify_js: false,
            hash_assets: false,
            images: ImageOptConfig::default(),
        }
    }
}

/// Dark mode configuration for themes.
#[derive(Debug, Clone)]
pub struct ThemeModes {
    /// Path to dark mode token file (relative to theme directory).
    pub dark: Option<String>,
}

impl Default for ThemeModes {
    fn default() -> (m: Self)
        ensures
            m.dark is None,
    {
        ThemeModes { dark: None }
    }
}

/// Theme configuration.
#[derive(Debug, Clone)]
pub struct ThemeConfig {
    /// Theme name — corresponds to a directory under `themes/`.
    pub name: Option<String>,
    /// Base theme to inherit from.
    pub base: Option<String>,
    /// Whether to share this theme (expose its tokens for child themes).
    pub share: bool,
    /// Color mode variants (e.g. dark mode).
    pub modes: ThemeModes,
    /// Prefix for all CSS custom property names (e.g. "rh" → --rh-color-primary).
    pub prefix: Option<String>,
    /// Asset optimization settings.
    pub optimize: OptimizeConfig,
}

impl Default for ThemeConfig {
    fn default() -> (c: Self)
        ensures
            c.name is None,
            c.base is None,
            !c.share,
            c.modes.dark is None,
            c.prefix is None,
            !c.optimize.minify_css && !c.optimize.minify_js && !c.optimize.hash_assets,
            !c.optimize.images.webp && c.optimize.images.quality == 80,
            c.optimize.images.max_width is None,
    {
        ThemeConfig {
            name: None,
            base: None,
            share: false,
            modes: ThemeModes::default(),
            prefix: None,
            optimize: OptimizeConfig::default(),
        }
    }
}

/// `true`, the default of several boolean settings.
pub fn default_true() -> (b: bool)
    ensures
        b,
{
    true
}

/// The default RDFa vocabulary.
pub fn default_vocab() -> (r: String)
    ensures
        r@ == "https://schema.org/"@,
{
    "https://schema.org/".to_owned()
}

/// Linked data and RDFa configuration.
#[derive(Debug, Clone)]
pub struct LinkedDataConfig {
    /// Enable RDFa template helpers.
    pub rdfa: bool,
    /// Default vocabulary for RDFa output.
    pub default_vocab: String,
    /// Include all graph data in JSON-LD, not just standard fields.
    pub rich_jsonld: bool,
    /// Enable [text](rdfa:prop) Markdown link rewriting.
    pub rdfa_links: bool,
    /// Additional vocabulary namespace prefixes (merged with built-in prefixes).
    pub prefixes: Vec<(String, String)>,
}

impl Default for LinkedDataConfig {
    fn default() -> (c: Self)
        ensures
            c.rdfa,
            c.default_vocab@ == "https://schema.org/"@,
            c.rich_jsonld,
            c.rdfa_links,
            c.prefixes@.len() == 0,
    {
        LinkedDataConfig {
            rdfa: true,
            default_vocab: default_vocab(),
            rich_jsonld: true,
            rdfa_links: true,
            prefixes: Vec::new(),
        }
    }
}

/// MCP agent discovery configuration.
#[derive(Debug, Clone)]
pub struct McpConfig {
    pub enabled: bool,
    /// WASM delivery: "cdn" (default) or "local" (bundled in dist/bin/).
    pub wasm_source: String,
    /// Custom WASM URL (overrides cdn/local).
    pub wasm_url: Option<String>,
    /// Custom description for the manifest tool entry.
    pub description: Option<String>,
}

impl Default for McpConfig {
    fn default() -> (c: Self)
        ensures
            !c.enabled,
            c.wasm_source@ == "cdn"@,
            c.wasm_url is None,
            c.description is None,
    {
        McpConfig {
            enabled: false,
            wasm_source: default_wasm_source(),
            wasm_url: None,
            description: None,
        }
    }
}

/// Default WASM delivery.
pub fn default_wasm_source() -> (r: String)
    ensures
        r@ == "cdn"@,
{
    "cdn".to_owned()
}

/// Design system token configuration.
#[derive(Debug, Clone)]
pub struct DesignSystemConfig {
    pub tokens: Vec<String>,
}

impl Default for DesignSystemConfig {
    fn default() -> (c: Self)
        ensures
            c.tokens@.len() == 0,
    {
        DesignSystemConfig { tokens: Vec::new() }
    }
}

/// Dev Spaces configuration for the "Edit Source Code" button.
#[derive(Debug, Clone)]
pub struct DevSpacesConfig {
    pub url: Option<String>,
    pub git_repo: Option<String>,
}

impl Default for DevSpacesConfig {
    fn default() -> (c: Self)
        ensures
            c.url is None,
            c.git_repo is None,
    {
        DevSpacesConfig { url: None, git_repo: None }
    }
}

/// URL style for generated pages.
/// The Dev Spaces factory URL behind "Edit Source Code": `{url}#{git_repo}` when both are
/// configured, else empty.
pub fn devspaces_url(config: &DevSpacesConfig) -> (r: String)
    ensures
        r@ == match (config.url, config.git_repo) {
            (Some(u), Some(g)) => u@ + "#"@ + g@,
            _ => Seq::<char>::empty(),
        },
{
    match (&config.url, &config.git_repo) {
        (Some(u), Some(g)) => {
            let mut r = u.clone();
            r.append("#");
            r.append(g.as_str());
            r
        },
        _ => String::new(),
    }
}

#[derive(Debug, Clone, Copy, PartialEq, Eq, Structural)]
pub enum UrlStyle {
    /// Output as `about.html` → URL `/about.html`
    File,
    /// Output as `about/index.html` → URL `/about/`
    Directory,
}

impl Default for UrlStyle {
    fn default() -> (s: Self)
        ensures
            s == UrlStyle::File,
    {
        UrlStyle::File
    }
}

/// Build configuration.
#[derive(Debug, Clone, Copy)]
pub struct BuildConfig {
    /// How to structure output URLs.
    pub url_style: UrlStyle,
}

impl Default for BuildConfig {
    fn default() -> (c: Self)
        ensures
            c.url_style == UrlStyle::File,
    {
        BuildConfig { url_style: UrlStyle::File }
    }
}

} // verus!
