//! Persisted mapping from user-friendly names to ontology IRIs, and
//! compaction/expansion of IRIs with namespace prefixes.
use vstd::prelude::*;
use crate::strmap::StrMap;
use crate::text::{
    chars_of, find_exec, find, push_range, starts_with, starts_with_exec, str_eq, to_lowercase,
    unicode_lowercase,
};

verus! {

// ---------------------------------------------------------------------------
// Built-in prefixes
// ---------------------------------------------------------------------------

pub open spec fn name_schema() -> Seq<char> { seq!['s', 'c', 'h', 'e', 'm', 'a'] }
pub open spec fn name_dc() -> Seq<char> { seq!['d', 'c'] }
pub open spec fn name_foaf() -> Seq<char> { seq!['f', 'o', 'a', 'f'] }
pub open spec fn name_geoff() -> Seq<char> { seq!['g', 'e', 'o', 'f', 'f'] }
pub open spec fn name_rdfs() -> Seq<char> { seq!['r', 'd', 'f', 's'] }
pub open spec fn name_rdf() -> Seq<char> { seq!['r', 'd', 'f'] }

/// Known namespace prefixes for compact IRI display, in the order they are tried.
pub open spec fn builtin_prefixes() -> Seq<(Seq<char>, Seq<char>)> {
    seq![
        (name_schema(), "https://schema.org/"@),
        (name_dc(), "http://purl.org/dc/terms/"@),
        (name_foaf(), "http://xmlns.com/foaf/0.1/"@),
        (name_geoff(), "urn:geoff:ontology:"@),
        (name_rdfs(), "http://www.w3.org/2000/01/rdf-schema#"@),
        (name_rdf(), "http://www.w3.org/1999/02/22-rdf-syntax-ns#"@),
    ]
}

/// The built-in prefixes as executable string pairs.
pub fn known_prefixes() -> (v: Vec<(&'static str, &'static str)>)
    ensures
        v@.len() == builtin_prefixes().len(),
        forall|i: int| 0 <= i < v@.len() ==> (#[trigger] v@[i]).0@ == builtin_prefixes()[i].0
            && v@[i].1@ == builtin_prefixes()[i].1,
{
    let v = vec![
        ("schema", "https://schema.org/"),
        ("dc", "http://purl.org/dc/terms/"),
        ("foaf", "http://xmlns.com/foaf/0.1/"),
        ("geoff", "urn:geoff:ontology:"),
        ("rdfs", "http://www.w3.org/2000/01/rdf-schema#"),
        ("rdf", "http://www.w3.org/1999/02/22-rdf-syntax-ns#"),
    ];
    proof {
        reveal_strlit("schema");
        reveal_strlit("dc");
        reveal_strlit("foaf");
        reveal_strlit("geoff");
        reveal_strlit("rdfs");
        reveal_strlit("rdf");
        assert("schema"@ =~= name_schema());
        assert("dc"@ =~= name_dc());
        assert("foaf"@ =~= name_foaf());
        assert("geoff"@ =~= name_geoff());
        assert("rdfs"@ =~= name_rdfs());
        assert("rdf"@ =~= name_rdf());
    }
    v
}

// ---------------------------------------------------------------------------
// Specification of lookups
// ---------------------------------------------------------------------------

/// First index `>= i` whose namespace is a prefix of `iri`.
pub open spec fn find_namespace(pairs: Seq<(Seq<char>, Seq<char>)>, iri: Seq<char>, i: int) -> Option<int>
    decreases pairs.len() - i,
{
    if i < 0 || i >= pairs.len() {
        None
    } else if starts_with(iri, pairs[i].1) {
        Some(i)
    } else {
        find_namespace(pairs, iri, i + 1)
    }
}

/// First index `>= i` whose prefix name is `name`.
pub open spec fn find_name(pairs: Seq<(Seq<char>, Seq<char>)>, name: Seq<char>, i: int) -> Option<int>
    decreases pairs.len() - i,
{
    if i < 0 || i >= pairs.len() {
        None
    } else if pairs[i].0 == name {
        Some(i)
    } else {
        find_name(pairs, name, i + 1)
    }
}

/// First index `>= i` whose key, lower-cased, is `lowered`.
pub open spec fn find_lower(pairs: Seq<(Seq<char>, Seq<char>)>, lowered: Seq<char>, i: int) -> Option<int>
    decreases pairs.len() - i,
{
    if i < 0 || i >= pairs.len() {
        None
    } else if unicode_lowercase(pairs[i].0) == lowered {
        Some(i)
    } else {
        find_lower(pairs, lowered, i + 1)
    }
}

/// `prefix:local`.
pub open spec fn prefixed(prefix: Seq<char>, local: Seq<char>) -> Seq<char> {
    prefix + seq![':'] + local
}

/// The prefixes tried when compacting: built-ins first, then the extra ones in order.
pub open spec fn all_prefix_pairs(extra: Seq<(Seq<char>, Seq<char>)>) -> Seq<(Seq<char>, Seq<char>)> {
    builtin_prefixes() + extra
}

/// Compacted form of `iri` against the given prefix list.
pub open spec fn compact_with(pairs: Seq<(Seq<char>, Seq<char>)>, iri: Seq<char>) -> Seq<char> {
    match find_namespace(pairs, iri, 0) {
        Some(i) => prefixed(pairs[i].0, iri.skip(pairs[i].1.len() as int)),
        None => iri,
    }
}

/// Expanded form of a `prefix:local` string against the built-ins and the extra prefix map.
pub open spec fn expand_with(extra: Map<Seq<char>, Seq<char>>, use_extra: bool, s: Seq<char>) -> Option<Seq<char>> {
    match find(s, seq![':']) {
        None => None,
        Some(c) => {
            let p = s.take(c);
            let local = s.skip(c + 1);
            match find_name(builtin_prefixes(), p, 0) {
                Some(i) => Some(builtin_prefixes()[i].1 + local),
                None => if use_extra && extra.contains_key(p) {
                    Some(extra[p] + local)
                } else {
                    None
                },
            }
        },
    }
}

/// Value of the first entry whose key matches `name` case-insensitively.
pub open spec fn lookup_ci(pairs: Seq<(Seq<char>, Seq<char>)>, name: Seq<char>) -> Option<Seq<char>> {
    match find_lower(pairs, unicode_lowercase(name), 0) {
        Some(i) => Some(pairs[i].1),
        None => None,
    }
}

/// Keep the existing value of `k`, or insert `v` when `k` is absent.
pub open spec fn or_insert(m: Map<Seq<char>, Seq<char>>, k: Seq<char>, v: Seq<char>) -> Map<Seq<char>, Seq<char>> {
    if m.contains_key(k) { m } else { m.insert(k, v) }
}

/// The property map after seeding the built-in default property mappings.
pub open spec fn seeded(m: Map<Seq<char>, Seq<char>>) -> Map<Seq<char>, Seq<char>> {
    let m = or_insert(m, "title"@, "https://schema.org/name"@);
    let m = or_insert(m, "name"@, "https://schema.org/name"@);
    let m = or_insert(m, "date"@, "https://schema.org/datePublished"@);
    let m = or_insert(m, "datePublished"@, "https://schema.org/datePublished"@);
    let m = or_insert(m, "author"@, "https://schema.org/author"@);
    let m = or_insert(m, "description"@, "https://schema.org/description"@);
    let m = or_insert(m, "url"@, "https://schema.org/url"@);
    let m = or_insert(m, "image"@, "https://schema.org/image"@);
    let m = or_insert(m, "keywords"@, "https://schema.org/keywords"@);
    let m = or_insert(m, "tags"@, "https://schema.org/keywords"@);
    let m = or_insert(m, "wordCount"@, "https://schema.org/wordCount"@);
    let m = or_insert(m, "language"@, "http://purl.org/dc/terms/language"@);
    let m = or_insert(m, "about"@, "https://schema.org/about"@);
    or_insert(m, "publisher"@, "https://schema.org/publisher"@)
}

// ---------------------------------------------------------------------------
// The registry
// ---------------------------------------------------------------------------

/// Mapping from user-friendly names to ontology IRIs.
///
/// Stored in `ontology/mappings.toml` so users never need to know IRIs.
pub struct MappingRegistry {
    pub types: StrMap,
    pub properties: StrMap,
    pub extra_prefixes: StrMap,
}

impl MappingRegistry {
    pub open spec fn wf(&self) -> bool {
        self.types.wf() && self.properties.wf() && self.extra_prefixes.wf()
    }

    /// A registry holding only the default property mappings.
    pub fn new() -> (r: Self)
        ensures
            r.wf(),
            r.types@ == Map::<Seq<char>, Seq<char>>::empty(),
            r.properties@ == seeded(Map::empty()),
            r.extra_prefixes@ == Map::<Seq<char>, Seq<char>>::empty(),
            r.extra_prefixes.pairs().len() == 0,
    {
        let mut reg = MappingRegistry {
            types: StrMap::new(),
            properties: StrMap::new(),
            extra_prefixes: StrMap::new(),
        };
        reg.seed_defaults();
        reg
    }

    fn seed_one(&mut self, name: &str, iri: &str)
        requires
            old(self).wf(),
        ensures
            final(self).wf(),
            final(self).properties@ == or_insert(old(self).properties@, name@, iri@),
            final(self).types == old(self).types,
            final(self).extra_prefixes == old(self).extra_prefixes,
    {
        if !self.properties.contains_key(name) {
            self.properties.insert(name.to_owned(), iri.to_owned());
        }
    }

    /// Add the built-in default property mappings that are not already present.
    pub fn seed_defaults(&mut self)
        requires
            old(self).wf(),
        ensures
            final(self).wf(),
            final(self).properties@ == seeded(old(self).properties@),
            final(self).types == old(self).types,
            final(self).extra_prefixes == old(self).extra_prefixes,
    {
        self.seed_one("title", "https://schema.org/name");
        self.seed_one("name", "https://schema.org/name");
        self.seed_one("date", "https://schema.org/datePublished");
        self.seed_one("datePublished", "https://schema.org/datePublished");
        self.seed_one("author", "https://schema.org/author");
        self.seed_one("description", "https://schema.org/description");
        self.seed_one("url", "https://schema.org/url");
        self.seed_one("image", "https://schema.org/image");
        self.seed_one("keywords", "https://schema.org/keywords");
        self.seed_one("tags", "https://schema.org/keywords");
        self.seed_one("wordCount", "https://schema.org/wordCount");
        self.seed_one("language", "http://purl.org/dc/terms/language");
        self.seed_one("about", "https://schema.org/about");
        self.seed_one("publisher", "https://schema.org/publisher");
    }

    fn lookup_ci_in<'a>(map: &'a StrMap, name: &str) -> (r: Option<&'a str>)
        requires
            map.wf(),
        ensures
            r matches Some(v) ==> lookup_ci(map.pairs(), name@) == Some(v@),
            r is None ==> lookup_ci(map.pairs(), name@) == None::<Seq<char>>,
    {
        let lowered = to_lowercase(name);
        let n = map.len();
        let mut i: usize = 0;
        while i < n
            invariant
                n == map.pairs().len(),
                i <= n,
                lowered@ == unicode_lowercase(name@),
                find_lower(map.pairs(), lowered@, 0) == find_lower(map.pairs(), lowered@, i as int),
            decreases n - i,
        {
            let (k, v) = map.entry(i);
            let kl = to_lowercase(k.as_str());
            if str_eq(kl.as_str(), lowered.as_str()) {
                return Some(v.as_str());
            }
            i = i + 1;
        }
        None
    }

    /// Look up a type mapping by user-friendly name (case-insensitive).
    pub fn resolve_type(&self, name: &str) -> (r: Option<&str>)
        requires
            self.wf(),
        ensures
            r matches Some(v) ==> lookup_ci(self.types.pairs(), name@) == Some(v@),
            r is None ==> lookup_ci(self.types.pairs(), name@) == None::<Seq<char>>,
    {
        Self::lookup_ci_in(&self.types, name)
    }

    /// Look up a property mapping by user-friendly name (case-insensitive).
    pub fn resolve_property(&self, name: &str) -> (r: Option<&str>)
        requires
            self.wf(),
        ensures
            r matches Some(v) ==> lookup_ci(self.properties.pairs(), name@) == Some(v@),
            r is None ==> lookup_ci(self.properties.pairs(), name@) == None::<Seq<char>>,
    {
        Self::lookup_ci_in(&self.properties, name)
    }

    /// Add a type mapping.
    pub fn add_type(&mut self, name: &str, iri: &str)
        requires
            old(self).wf(),
        ensures
            final(self).wf(),
            final(self).types@ == old(self).types@.insert(name@, iri@),
            old(self).types.has(name@) ==> final(self).types.pairs() == old(self).types.pairs().update(
                old(self).types.index_of(name@),
                (name@, iri@),
            ),
            !old(self).types.has(name@) ==> final(self).types.pairs() == old(self).types.pairs().push(
                (name@, iri@),
            ),
            final(self).properties == old(self).properties,
            final(self).extra_prefixes == old(self).extra_prefixes,
    {
        self.types.insert(name.to_owned(), iri.to_owned());
    }

    /// Add a property mapping.
    pub fn add_property(&mut self, name: &str, iri: &str)
        requires
            old(self).wf(),
        ensures
            final(self).wf(),
            final(self).properties@ == old(self).properties@.insert(name@, iri@),
            old(self).properties.has(name@) ==> final(self).properties.pairs()
                == old(self).properties.pairs().update(
                old(self).properties.index_of(name@),
                (name@, iri@),
            ),
            !old(self).properties.has(name@) ==> final(self).properties.pairs()
                == old(self).properties.pairs().push((name@, iri@)),
            final(self).types == old(self).types,
            final(self).extra_prefixes == old(self).extra_prefixes,
    {
        self.properties.insert(name.to_owned(), iri.to_owned());
    }

    /// Merge additional namespace prefixes into this registry (later entries win).
    pub fn add_prefixes(&mut self, prefixes: Vec<(String, String)>)
        requires
            old(self).wf(),
        ensures
            final(self).wf(),
            final(self).extra_prefixes@ == insert_all(old(self).extra_prefixes@, prefixes@.map_values(
                |p: (String, String)| (p.0@, p.1@),
            )),
            final(self).types == old(self).types,
            final(self).properties == old(self).properties,
    {
        let ghost ps = prefixes@.map_values(|p: (String, String)| (p.0@, p.1@));
        let ghost start = self.extra_prefixes@;
        let mut i: usize = 0;
        let n = prefixes.len();
        while i < n
            invariant
                n == prefixes@.len(),
                i <= n,
                ps == prefixes@.map_values(|p: (String, String)| (p.0@, p.1@)),
                self.wf(),
                self.extra_prefixes@ == insert_all(start, ps.take(i as int)),
                self.types == old(self).types,
                self.properties == old(self).properties,
            decreases n - i,
        {
            let (p, ns) = (prefixes[i].0.clone(), prefixes[i].1.clone());
            self.extra_prefixes.insert(p, ns);
            proof {
                assert(ps.take(i + 1).drop_last() =~= ps.take(i as int));
            }
            i = i + 1;
        }
        assert(ps.take(n as int) =~= ps);
    }

    /// All active prefixes: the built-in ones, then the user-declared ones in order.
    pub fn all_prefixes(&self) -> (v: Vec<(&str, &str)>)
        ensures
            v@.len() == all_prefix_pairs(self.extra_prefixes.pairs()).len(),
            forall|i: int| 0 <= i < v@.len() ==> (#[trigger] v@[i]).0@
                == all_prefix_pairs(self.extra_prefixes.pairs())[i].0 && v@[i].1@
                == all_prefix_pairs(self.extra_prefixes.pairs())[i].1,
    {
        let mut v: Vec<(&str, &str)> = known_prefixes();
        let n = self.extra_prefixes.len();
        let mut j: usize = 0;
        while j < n
            invariant
                n == self.extra_prefixes.pairs().len(),
                j <= n,
                v@.len() == builtin_prefixes().len() + j,
                forall|i: int| 0 <= i < v@.len() ==> (#[trigger] v@[i]).0@
                    == all_prefix_pairs(self.extra_prefixes.pairs())[i].0 && v@[i].1@
                    == all_prefix_pairs(self.extra_prefixes.pairs())[i].1,
            decreases n - j,
        {
            let (p, ns) = self.extra_prefixes.entry(j);
            v.push((p.as_str(), ns.as_str()));
            j = j + 1;
        }
        v
    }

    /// Compact an IRI to prefixed form (e.g. "https://schema.org/BlogPosting" → "schema:BlogPosting").
    /// Built-in prefixes are tried first, then user-declared ones.
    pub fn compact_iri(&self, iri: &str) -> (r: String)
        ensures
            r@ == compact_with(all_prefix_pairs(self.extra_prefixes.pairs()), iri@),
    {
        let pairs = self.all_prefixes();
        let ghost sp = all_prefix_pairs(self.extra_prefixes.pairs());
        let iv = chars_of(iri);
        let mut i: usize = 0;
        while i < pairs.len()
            invariant
                sp == all_prefix_pairs(self.extra_prefixes.pairs()),
                pairs@.len() == sp.len(),
                forall|k: int| 0 <= k < pairs@.len() ==> (#[trigger] pairs@[k]).0@ == sp[k].0
                    && pairs@[k].1@ == sp[k].1,
                iv@ == iri@,
                i <= pairs@.len(),
                find_namespace(sp, iri@, 0) == find_namespace(sp, iri@, i as int),
            decreases pairs@.len() - i,
        {
            let (p, ns) = pairs[i];
            let nv = chars_of(ns);
            if starts_with_exec(&iv, &nv) {
                assert(find_namespace(sp, iri@, i as int) == Some(i as int));
                let mut out = p.to_owned();
                crate::text::push_char(&mut out, ':');
                push_range(&mut out, &iv, nv.len(), iv.len());
                proof {
                    assert(out@ =~= prefixed(sp[i as int].0, iri@.skip(sp[i as int].1.len() as int)));
                }
                return out;
            }
            i = i + 1;
        }
        iri.to_owned()
    }

    fn expand_impl(&self, prefixed_iri: &str, use_extra: bool) -> (r: Option<String>)
        requires
            self.wf(),
        ensures
            r matches Some(x) ==> expand_with(self.extra_prefixes@, use_extra, prefixed_iri@) == Some(x@),
            r is None ==> expand_with(self.extra_prefixes@, use_extra, prefixed_iri@) == None::<Seq<char>>,
    {
        let sv = chars_of(prefixed_iri);
        let colon = vec![':'];
        assert(colon@ =~= seq![':']);
        proof {
            crate::text::lemma_find_from_result(sv@, colon@, 0);
        }
        let c = match find_exec(&sv, &colon) {
            Some(c) => c,
            None => return None,
        };
        assert(c + 1 <= sv@.len());
        let p = crate::text::string_of_range(&sv, 0, c);
        let builtins = known_prefixes();
        let mut i: usize = 0;
        while i < builtins.len()
            invariant
                builtins@.len() == builtin_prefixes().len(),
                forall|k: int| 0 <= k < builtins@.len() ==> (#[trigger] builtins@[k]).0@
                    == builtin_prefixes()[k].0 && builtins@[k].1@ == builtin_prefixes()[k].1,
                i <= builtins@.len(),
                sv@ == prefixed_iri@,
                c + 1 <= sv@.len(),
                find(sv@, seq![':']) == Some(c as int),
                p@ == sv@.take(c as int),
                find_name(builtin_prefixes(), p@, 0) == find_name(builtin_prefixes(), p@, i as int),
            decreases builtins@.len() - i,
        {
            let (name, ns) = builtins[i];
            if str_eq(name, p.as_str()) {
                let mut out = ns.to_owned();
                push_range(&mut out, &sv, c + 1, sv.len());
                proof {
                    assert(out@ =~= builtin_prefixes()[i as int].1 + prefixed_iri@.skip(c + 1));
                }
                return Some(out);
            }
            i = i + 1;
        }
        let n = sv.len();
        let c1 = c + 1;
        if use_extra {
            if let Some(ns) = self.extra_prefixes.get(p.as_str()) {
                let mut out = ns.clone();
                push_range(&mut out, &sv, c1, sv.len());
                proof {
                    assert(out@ =~= self.extra_prefixes@[p@] + prefixed_iri@.skip(c + 1));
                }
                return Some(out);
            }
        }
        None
    }

    /// Expand a prefixed IRI to full form (e.g. "schema:BlogPosting" → "https://schema.org/BlogPosting").
    /// Checks both built-in and user-declared prefixes.
    pub fn expand_iri(&self, prefixed_iri: &str) -> (r: Option<String>)
        requires
            self.wf(),
        ensures
            r matches Some(x) ==> expand_with(self.extra_prefixes@, true, prefixed_iri@) == Some(x@),
            r is None ==> expand_with(self.extra_prefixes@, true, prefixed_iri@) == None::<Seq<char>>,
    {
        self.expand_impl(prefixed_iri, true)
    }

    /// Expand a prefixed IRI using only the built-in prefixes.
    pub fn expand_iri_builtin(prefixed_iri: &str) -> (r: Option<String>)
        ensures
            r matches Some(x) ==> expand_with(Map::empty(), false, prefixed_iri@) == Some(x@),
            r is None ==> expand_with(Map::empty(), false, prefixed_iri@) == None::<Seq<char>>,
    {
        let empty = MappingRegistry {
            types: StrMap::new(),
            properties: StrMap::new(),
            extra_prefixes: StrMap::new(),
        };
        let r = empty.expand_impl(prefixed_iri, false);
        proof {
            assert(empty.extra_prefixes@ =~= Map::<Seq<char>, Seq<char>>::empty());
        }
        r
    }
}

/// The map after inserting every pair of `ps`, in order.
pub open spec fn insert_all(m: Map<Seq<char>, Seq<char>>, ps: Seq<(Seq<char>, Seq<char>)>) -> Map<Seq<char>, Seq<char>>
    decreases ps.len(),
{
    if ps.len() == 0 {
        m
    } else {
        insert_all(m, ps.drop_last()).insert(ps.last().0, ps.last().1)
    }
}


// ---------------------------------------------------------------------------
// Laws
// ---------------------------------------------------------------------------

proof fn lemma_find_lower_at(pairs: Seq<(Seq<char>, Seq<char>)>, l: Seq<char>, i: int, j: int)
    requires
        0 <= i <= j < pairs.len(),
        unicode_lowercase(pairs[j].0) == l,
        forall|k: int| i <= k < j ==> unicode_lowercase(#[trigger] pairs[k].0) != l,
    ensures
        find_lower(pairs, l, i) == Some(j),
    decreases j - i,
{
    if i < j {
        lemma_find_lower_at(pairs, l, i + 1, j);
    }
}

proof fn lemma_find_name_at(pairs: Seq<(Seq<char>, Seq<char>)>, n: Seq<char>, i: int, j: int)
    requires
        0 <= i <= j < pairs.len(),
        pairs[j].0 == n,
        forall|k: int| i <= k < j ==> (#[trigger] pairs[k].0) != n,
    ensures
        find_name(pairs, n, i) == Some(j),
    decreases j - i,
{
    if i < j {
        lemma_find_name_at(pairs, n, i + 1, j);
    }
}

proof fn lemma_find_namespace_range(pairs: Seq<(Seq<char>, Seq<char>)>, iri: Seq<char>, i: int)
    ensures
        find_namespace(pairs, iri, i) matches Some(j) ==> i <= j < pairs.len()
            && starts_with(iri, pairs[j].1),
    decreases pairs.len() - i,
{
    if 0 <= i < pairs.len() && !starts_with(iri, pairs[i].1) {
        lemma_find_namespace_range(pairs, iri, i + 1);
    }
}

/// The first `:` of `prefix:local` is the one after the prefix when the prefix has none.
pub proof fn lemma_find_colon(p: Seq<char>, local: Seq<char>)
    requires
        !p.contains(':'),
    ensures
        find(prefixed(p, local), seq![':']) == Some(p.len() as int),
{
    let s = prefixed(p, local);
    assert(s.subrange(p.len() as int, p.len() + 1 as int) =~= seq![':']);
    assert forall|j: int| 0 <= j < p.len() implies !crate::text::occurs_at(s, seq![':'], j) by {
        assert(s.subrange(j, j + 1)[0] == p[j]);
        assert(p[j] != ':');
    }
    crate::text::lemma_find_from_some(s, seq![':'], 0, p.len() as int);
}

/// A user-declared prefix name that can be read back: no `:` and not a built-in name.
pub open spec fn readable_prefix_name(name: Seq<char>) -> bool {
    !name.contains(':') && find_name(builtin_prefixes(), name, 0) is None
}

/// Compacting an IRI with some applicable prefix and expanding the result gives
/// the IRI back (user-declared prefix names must be readable back: no `:`, and
/// not the name of a built-in prefix).
pub proof fn law_compact_then_expand(reg: MappingRegistry, iri: Seq<char>)
    requires
        reg.wf(),
        forall|j: int| 0 <= j < reg.extra_prefixes.pairs().len()
            ==> readable_prefix_name(#[trigger] reg.extra_prefixes.pairs()[j].0),
        find_namespace(all_prefix_pairs(reg.extra_prefixes.pairs()), iri, 0) is Some,
    ensures
        expand_with(reg.extra_prefixes@, true, compact_with(all_prefix_pairs(reg.extra_prefixes.pairs()), iri))
            == Some(iri),
{
    let pairs = all_prefix_pairs(reg.extra_prefixes.pairs());
    lemma_find_namespace_range(pairs, iri, 0);
    let i = find_namespace(pairs, iri, 0)->Some_0;
    let p = pairs[i].0;
    let ns = pairs[i].1;
    let local = iri.skip(ns.len() as int);
    let c = prefixed(p, local);
    assert(ns + local =~= iri);
    let nb = builtin_prefixes().len() as int;
    if i < nb {
        assert(!p.contains(':')) by {
            if p.contains(':') {
                let k = choose|k: int| 0 <= k < p.len() && p[k] == ':';
                assert(false);
            }
        }
        lemma_find_colon(p, local);
        assert(c.take(p.len() as int) =~= p);
        assert(c.skip(p.len() + 1 as int) =~= local);
        assert forall|k: int| 0 <= k < i implies (#[trigger] builtin_prefixes()[k].0) != p by {
            assert(builtin_prefixes()[k].0.len() != p.len() || builtin_prefixes()[k].0 != p);
        }
        lemma_find_name_at(builtin_prefixes(), p, 0, i);
    } else {
        let j = i - nb;
        assert(p == reg.extra_prefixes.pairs()[j].0);
        assert(readable_prefix_name(reg.extra_prefixes.pairs()[j].0));
        lemma_find_colon(p, local);
        assert(c.take(p.len() as int) =~= p);
        assert(c.skip(p.len() + 1 as int) =~= local);
        reg.extra_prefixes.lemma_index_of(p, j);
    }
}

/// After a type mapping is added, looking up any spelling with the same
/// lower-casing finds it, provided no other mapped name lower-cases the same way.
pub proof fn law_add_type_then_resolve(
    before: MappingRegistry,
    after: MappingRegistry,
    name: Seq<char>,
    iri: Seq<char>,
    query: Seq<char>,
)
    requires
        before.wf(),
        before.types.has(name) ==> after.types.pairs() == before.types.pairs().update(
            before.types.index_of(name),
            (name, iri),
        ),
        !before.types.has(name) ==> after.types.pairs() == before.types.pairs().push((name, iri)),
        unicode_lowercase(query) == unicode_lowercase(name),
        forall|k: int| 0 <= k < before.types.pairs().len() && (#[trigger] before.types.pairs()[k]).0
            != name ==> unicode_lowercase(before.types.pairs()[k].0) != unicode_lowercase(name),
    ensures
        lookup_ci(after.types.pairs(), query) == Some(iri),
{
    let l = unicode_lowercase(name);
    let old_pairs = before.types.pairs();
    let new_pairs = after.types.pairs();
    if before.types.has(name) {
        let j = before.types.index_of(name);
        before.types.lemma_index_of(name, j);
        assert forall|k: int| 0 <= k < j implies unicode_lowercase(#[trigger] new_pairs[k].0) != l by {
            assert(new_pairs[k] == old_pairs[k]);
            assert(old_pairs[k].0 != old_pairs[j].0);
        }
        lemma_find_lower_at(new_pairs, l, 0, j);
    } else {
        let j = old_pairs.len() as int;
        assert forall|k: int| 0 <= k < j implies unicode_lowercase(#[trigger] new_pairs[k].0) != l by {
            assert(new_pairs[k] == old_pairs[k]);
            if old_pairs[k].0 == name {
                assert(before.types.has(name));
            }
        }
        lemma_find_lower_at(new_pairs, l, 0, j);
    }
}

} // verus!
