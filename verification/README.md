# geoff

A semantically rich static site generator, with its core verified in Verus.

Content is Markdown with TOML frontmatter. Each page becomes a named graph of RDF
triples (its standard fields, its `[data]` fields resolved through friendly-name
mappings, its `[rdf.custom]` fields), gets JSON-LD and RDFa from that graph, and is
rendered with Tera templates that can list pages (`pages()`, `tree()`), query the graph
(`sparql()`), and use a theme built from design tokens.

## Layout

- `src/` — the verified library. Its own functions carry contracts that Verus proves;
  the calls into outside crates (Oxigraph, pulldown-cmark, serde_json, sha2, and a few
  std text functions) go through small trusted wrappers whose contracts are believed,
  not proved, and say in their doc comments what they claim. The library covers:
  frontmatter splitting, Markdown rendering and RDFa link rewriting, the mapping
  registry, page URIs and IRI escaping, page triples and index entries, the RDF store
  (Oxigraph, behind trusted wrappers: inserts, the N-Triples export and the reading of
  a page's own triples are stated exactly over the store's quads; a Turtle load is
  stated by when it succeeds and which graph every added quad lies in, not by which
  quads it adds, as blank nodes are renamed on every load; general SPARQL answers are
  stated only in their shape, as they may depend on the clock, chance or remote
  services), JSON-LD and RDFa
  output, navigation (`pages()`/`tree()`), design tokens (parsing, merging, reference
  resolution, CSS generation, theme generation), the build cache and the incremental
  build rule, asset and content hashing (SHA-256), configuration defaults, the plugin protocol values,
  and the pages the development server answers with.
  Public proof functions named `law_*` state properties that span several functions.
- `tests/` — tests of the library on concrete values.
- `app/` — the `geoff` command line: argument parsing, file and process I/O, TOML and
  JSON (de)serialization, Tera rendering, and the fuzzy vocabulary matcher (its scores
  are floating point).
