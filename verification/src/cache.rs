//! Build cache for incremental builds.
//!
//! Tracks content hashes per file to skip unchanged pages.  Reading files and
//! persisting the cache as JSON happen around the library; this module holds
//! the cache itself, the SHA-256 content hashes of the bytes read, and the FNV-1a hash
//! that combines a directory's file hashes.
use vstd::prelude::*;
use vstd::wrapping::u64_specs::wrapping_mul;
use crate::strmap::StrMap;
use crate::text::push_char;
use crate::optimize::{hex_lower_bytes, sha256_digest, sha256_hex};

verus! {

/// Stored build cache, persisted to `.geoff/build-cache.json`.
pub struct BuildCache {
    /// Map of relative file path -> content hash.
    pub files: StrMap,
    /// Hash of the template directory contents.
    pub template_hash: Option<String>,
}

/// Whether a file counts as changed given the cached hashes.
pub open spec fn changed_in(files: Map<Seq<char>, Seq<char>>, path: Seq<char>, hash: Seq<char>) -> bool {
    !(files.contains_key(path) && files[path] == hash)
}

impl Default for BuildCache {
    fn default() -> (c: Self)
        ensures
            c.files.wf(),
            c.files@ == Map::<Seq<char>, Seq<char>>::empty(),
            c.template_hash is None,
    {
        BuildCache { files: StrMap::new(), template_hash: None }
    }
}

impl BuildCache {
    /// Check if a file has changed since last build.
    /// Returns true if the file is new or its hash differs.
    pub fn is_changed(&self, rel_path: &str, current_hash: &str) -> (b: bool)
        requires
            self.files.wf(),
        ensures
            b == changed_in(self.files@, rel_path@, current_hash@),
    {
        match self.files.get(rel_path) {
            Some(cached_hash) => !crate::text::str_eq(cached_hash.as_str(), current_hash),
            None => true,
        }
    }

    /// Record a file's hash after successful build.
    pub fn record(&mut self, rel_path: String, hash: String)
        requires
            old(self).files.wf(),
        ensures
            final(self).files.wf(),
            final(self).files@ == old(self).files@.insert(rel_path@, hash@),
            final(self).template_hash == old(self).template_hash,
    {
        self.files.insert(rel_path, hash);
    }

    /// Remove entries for files that no longer exist.
    pub fn prune(&mut self, existing_paths: &[&str])
        requires
            old(self).files.wf(),
        ensures
            final(self).files.wf(),
            final(self).files@ == old(self).files@.restrict(
                Set::new(|k: Seq<char>| crate::strmap::key_in(existing_paths@, k)),
            ),
            final(self).template_hash == old(self).template_hash,
    {
        self.files.retain_keys(existing_paths);
    }
}

/// What an incremental build does with a content file.
#[derive(Debug, Clone, Copy, PartialEq, Eq, Structural)]
pub enum PagePlan {
    /// Parse it, put it in the graph and render it.
    Render,
    /// Only put it in the graph and the page index: its output is still current.
    GraphOnly,
}

/// Whether the templates changed since the cached build: they did unless the cache holds
/// the same template hash.
pub fn templates_changed(cached: &Option<String>, current: &str) -> (b: bool)
    ensures
        b == !(cached matches Some(h) && h@ == current@),
{
    match cached {
        Some(h) => !crate::text::str_eq(h.as_str(), current),
        None => true,
    }
}

/// The incremental build rule: a file is rendered again unless the templates are
/// unchanged, the file itself is unchanged, and its template does not query the graph
/// (whose contents other pages may have changed).
pub open spec fn plan_spec(templates_changed: bool, file_unchanged: bool, template_queries_graph: bool) -> PagePlan {
    if !templates_changed && file_unchanged && !template_queries_graph {
        PagePlan::GraphOnly
    } else {
        PagePlan::Render
    }
}

/// Decides what an incremental build does with a content file.
pub fn plan_page(templates_changed: bool, file_unchanged: bool, template_queries_graph: bool) -> (p: PagePlan)
    ensures
        p == plan_spec(templates_changed, file_unchanged, template_queries_graph),
{
    if !templates_changed && file_unchanged && !template_queries_graph {
        PagePlan::GraphOnly
    } else {
        PagePlan::Render
    }
}

/// After a file's hash is recorded, the same hash is unchanged and any other
/// hash is a change; other files keep their status.
pub proof fn law_record_then_is_changed(
    files: Map<Seq<char>, Seq<char>>,
    path: Seq<char>,
    hash: Seq<char>,
    other_path: Seq<char>,
    probe: Seq<char>,
)
    ensures
        !changed_in(files.insert(path, hash), path, hash),
        probe != hash ==> changed_in(files.insert(path, hash), path, probe),
        other_path != path ==> changed_in(files.insert(path, hash), other_path, probe)
            == changed_in(files, other_path, probe),
{
}

/// After pruning, every path not among the existing ones counts as changed, and
/// the existing ones keep their status.
pub proof fn law_prune_forgets_deleted(
    files: Map<Seq<char>, Seq<char>>,
    keep: Set<Seq<char>>,
    path: Seq<char>,
    probe: Seq<char>,
)
    ensures
        !keep.contains(path) ==> changed_in(files.restrict(keep), path, probe),
        keep.contains(path) ==> changed_in(files.restrict(keep), path, probe)
            == changed_in(files, path, probe),
{
}

// ---------------------------------------------------------------------------
// Content hashes
// ---------------------------------------------------------------------------

/// The lower-case hexadecimal digit for `n < 16`.
pub open spec fn hex_digit_lower(n: u64) -> char {
    if n < 10 {
        (48 + n) as char
    } else {
        (87 + n) as char
    }
}

/// Content hash of a byte string: its SHA-256 digest as 64 lower-case hex digits.
pub fn hash_bytes(data: &[u8]) -> (s: String)
    ensures
        s@ == hex_lower_bytes(sha256_digest(data@)),
        s@.len() == 64,
{
    sha256_hex(data)
}

/// FNV-1a 64-bit offset basis.
pub const FNV_OFFSET: u64 = 0xcbf29ce484222325;
/// FNV-1a 64-bit prime.
pub const FNV_PRIME: u64 = 0x100000001b3;

/// One FNV-1a step.
pub open spec fn fnv_step(state: u64, b: u8) -> u64 {
    wrapping_mul(state ^ (b as u64), FNV_PRIME)
}

/// FNV-1a state after feeding `bytes` starting from `state`.
pub open spec fn fnv_feed(state: u64, bytes: Seq<u8>) -> u64
    decreases bytes.len(),
{
    if bytes.len() == 0 {
        state
    } else {
        fnv_step(fnv_feed(state, bytes.drop_last()), bytes.last())
    }
}

/// Simple FNV-1a hasher, used to combine a directory's file hashes.
pub struct SimpleHasher {
    pub state: u64,
}

impl SimpleHasher {
    pub fn new() -> (h: Self)
        ensures
            h.state == FNV_OFFSET,
    {
        SimpleHasher { state: FNV_OFFSET }
    }

    pub fn write(&mut self, bytes: &[u8])
        ensures
            final(self).state == fnv_feed(old(self).state, bytes@),
    {
        let ghost start = self.state;
        let mut i: usize = 0;
        while i < bytes.len()
            invariant
                i <= bytes.len(),
                self.state == fnv_feed(start, bytes@.take(i as int)),
            decreases bytes.len() - i,
        {
            let b = bytes[i];
            self.state = (self.state ^ (b as u64)).wrapping_mul(FNV_PRIME);
            proof {
                assert(bytes@.take(i + 1).drop_last() =~= bytes@.take(i as int));
            }
            i = i + 1;
        }
        assert(bytes@.take(bytes.len() as int) =~= bytes@);
    }

    pub fn finish(&self) -> (r: u64)
        ensures
            r == self.state,
    {
        self.state
    }
}

/// `{:016x}`: sixteen lower-case hex digits, most significant first.
pub open spec fn hex16(x: u64) -> Seq<char> {
    Seq::new(16, |k: int| hex_digit_lower((x >> ((60 - 4 * k) as u64)) & 15))
}

/// Format a `u64` as sixteen lower-case hex digits.
pub fn format_hex16(x: u64) -> (s: String)
    ensures
        s@ == hex16(x),
{
    let mut s = String::new();
    let mut k: u64 = 0;
    while k < 16
        invariant
            k <= 16,
            s@.len() == k,
            forall|j: int| 0 <= j < k ==> s@[j] == hex16(x)[j],
        decreases 16 - k,
    {
        let sh: u64 = 60 - 4 * k;
        let y = x >> sh;
        let nib = y & 15;
        assert(nib < 16) by (bit_vector)
            requires nib == y & 15;
        let c = if nib < 10 { (48u8 + nib as u8) as char } else { (87u8 + nib as u8) as char };
        push_char(&mut s, c);
        k = k + 1;
    }
    assert(s@ =~= hex16(x));
    s
}

/// Combined hash of a directory's file hashes: FNV-1a over the UTF-8 bytes of each
/// hash in the order given.
pub open spec fn combined_hash(hashes: Seq<Seq<char>>) -> u64
    decreases hashes.len(),
{
    if hashes.len() == 0 {
        FNV_OFFSET
    } else {
        fnv_feed(combined_hash(hashes.drop_last()), vstd::utf8::encode_utf8(hashes.last()))
    }
}

/// Combine per-file hashes (already sorted by path) into one directory hash: sixteen
/// hex digits of the FNV-1a hash of the file hashes in order.
pub fn hash_directory_from(file_hashes: &Vec<String>) -> (s: String)
    ensures
        s@ == hex16(combined_hash(file_hashes@.map_values(|h: String| h@))),
{
    let ghost hs = file_hashes@.map_values(|h: String| h@);
    let mut h = SimpleHasher::new();
    let mut i: usize = 0;
    while i < file_hashes.len()
        invariant
            i <= file_hashes@.len(),
            hs == file_hashes@.map_values(|h: String| h@),
            h.state == combined_hash(hs.take(i as int)),
        decreases file_hashes@.len() - i,
    {
        let bytes = file_hashes[i].as_str().as_bytes();
        proof {
            assert(hs.take(i + 1).drop_last() =~= hs.take(i as int));
        }
        h.write(bytes);
        i = i + 1;
    }
    assert(hs.take(file_hashes@.len() as int) =~= hs);
    format_hex16(h.finish())
}

} // verus!
