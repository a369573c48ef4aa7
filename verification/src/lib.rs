pub mod text;
pub mod json;
pub mod tokens;
pub mod resolve;
pub mod merge;
pub mod css;
pub mod preview;
pub mod rdfa;
pub mod jsonld;
pub mod theme_gen;
pub mod nav;
pub mod types;
pub mod strmap;
pub mod cache;
pub mod mappings;
pub mod markdown;
pub mod config;
pub mod vocabulary;
pub mod frontmatter;
pub mod validation;
pub mod protocol;
pub mod context;
pub mod entries;
pub mod scaffold;
pub mod component;
pub mod mcp;
pub mod store;
pub mod theme_build;
pub mod page_fields;
pub mod resolver;
pub mod optimize;
pub mod theme;
pub mod publish;
pub mod reading_time;
pub mod site;
pub mod dates;
pub mod dev;
pub mod preview_site;
