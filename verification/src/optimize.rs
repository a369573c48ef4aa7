//! Post-build asset optimization: which passes run, in which order, and the
//! pure parts of cache-busting (content hashes, hashed file names, and the
//! rewriting of references in HTML).
//!
//! The passes themselves (minifiers, image conversion, file renames) work on
//! the output directory around the library.
use vstd::prelude::*;
use sha2::Digest;
use crate::cache::hex_digit_lower;
use crate::config::OptimizeConfig;
use crate::text::{chars_of, occurs_at, occurs_at_exec, push_char};

verus! {

/// One optimization pass over the output directory.
#[derive(Debug, Clone, Copy, PartialEq, Eq, Structural)]
pub enum OptimizeStep {
    /// Minify every CSS file.
    MinifyCss,
    /// Minify every JS file.
    MinifyJs,
    /// Rename CSS/JS files with content hashes and update HTML references.
    HashAssets,
    /// Convert PNG/JPEG images to WebP.
    ConvertImages { quality: u8, max_width: Option<u32> },
}

/// Statistics from the optimization pass.
#[derive(Debug)]
pub struct OptimizeStats {
    pub css_minified: usize,
    pub js_minified: usize,
    pub assets_hashed: usize,
    pub images_converted: usize,
}

impl Default for OptimizeStats {
    fn default() -> (s: Self)
        ensures
            s.css_minified == 0 && s.js_minified == 0 && s.assets_hashed == 0 && s.images_converted == 0,
    {
        OptimizeStats { css_minified: 0, js_minified: 0, assets_hashed: 0, images_converted: 0 }
    }
}

impl OptimizeStats {
    /// Record the number of files a pass handled.
    pub fn record(&mut self, step: OptimizeStep, count: usize)
        ensures
            final(self).css_minified == if step == OptimizeStep::MinifyCss { count } else { old(self).css_minified },
            final(self).js_minified == if step == OptimizeStep::MinifyJs { count } else { old(self).js_minified },
            final(self).assets_hashed == if step == OptimizeStep::HashAssets { count } else { old(self).assets_hashed },
            final(self).images_converted == if step is ConvertImages { count } else { old(self).images_converted },
    {
        match step {
            OptimizeStep::MinifyCss => self.css_minified = count,
            OptimizeStep::MinifyJs => self.js_minified = count,
            OptimizeStep::HashAssets => self.assets_hashed = count,
            OptimizeStep::ConvertImages { .. } => self.images_converted = count,
        }
    }
}

/// The passes the configuration asks for, in the order they must run: minify
/// first, then hash (so hashes reflect minified content), then images.
pub open spec fn optimize_plan(config: OptimizeConfig) -> Seq<OptimizeStep> {
    (if config.minify_css { seq![OptimizeStep::MinifyCss] } else { Seq::empty() })
        + (if config.minify_js { seq![OptimizeStep::MinifyJs] } else { Seq::empty() })
        + (if config.hash_assets { seq![OptimizeStep::HashAssets] } else { Seq::empty() })
        + (if config.images.webp {
            seq![OptimizeStep::ConvertImages { quality: config.images.quality, max_width: config.images.max_width }]
        } else {
            Seq::empty()
        })
}

/// The optimization passes to run on the output directory, in order.
pub fn optimize_assets(config: &OptimizeConfig) -> (steps: Vec<OptimizeStep>)
    ensures
        steps@ == optimize_plan(*config),
{
    let mut steps: Vec<OptimizeStep> = Vec::new();
    if config.minify_css {
        steps.push(OptimizeStep::MinifyCss);
    }
    if config.minify_js {
        steps.push(OptimizeStep::MinifyJs);
    }
    if config.hash_assets {
        steps.push(OptimizeStep::HashAssets);
    }
    if config.images.webp {
        steps.push(OptimizeStep::ConvertImages {
            quality: config.images.quality,
            max_width: config.images.max_width,
        });
    }
    assert(steps@ =~= optimize_plan(*config));
    steps
}

// ---------------------------------------------------------------------------
// Content hashes
// ---------------------------------------------------------------------------

/// The SHA-256 digest of a byte string.
pub uninterp spec fn sha256_digest(data: Seq<u8>) -> Seq<u8>;

/// `sha2::Sha256::digest`: the contract names the digest `sha256_digest` of the
/// input and states its length, 32 bytes (SHA-256 produces 256 bits).
#[verifier::external_body]
fn sha256(data: &[u8]) -> (d: Vec<u8>)
    ensures
        d@ == sha256_digest(data@),
        d@.len() == 32,
{
    sha2::Sha256::digest(data).to_vec()
}

/// Two lower-case hex digits per byte.
pub open spec fn hex_lower_bytes(b: Seq<u8>) -> Seq<char>
    decreases b.len(),
{
    if b.len() == 0 {
        Seq::empty()
    } else {
        hex_lower_bytes(b.drop_last()) + seq![
            hex_digit_lower((b.last() / 16) as u64),
            hex_digit_lower((b.last() % 16) as u64),
        ]
    }
}

/// The cache-busting hash of a file's content: the first 8 hex characters of its SHA-256.
pub open spec fn content_hash_spec(data: Seq<u8>) -> Seq<char> {
    hex_lower_bytes(sha256_digest(data).take(4))
}

fn lower_hex(n: u8) -> (c: char)
    requires
        n < 16,
    ensures
        c == hex_digit_lower(n as u64),
{
    if n < 10 { (48u8 + n) as char } else { (87u8 + n) as char }
}

/// The SHA-256 digest of `data` as 64 lower-case hex digits.
pub fn sha256_hex(data: &[u8]) -> (h: String)
    ensures
        h@ == hex_lower_bytes(sha256_digest(data@)),
        h@.len() == 64,
{
    let d = sha256(data);
    let mut out = String::new();
    let mut i: usize = 0;
    while i < 32
        invariant
            i <= 32,
            d@.len() == 32,
            d@ == sha256_digest(data@),
            out@ == hex_lower_bytes(d@.take(i as int)),
            out@.len() == 2 * i,
        decreases 32 - i,
    {
        let b = d[i];
        push_char(&mut out, lower_hex(b / 16));
        push_char(&mut out, lower_hex(b % 16));
        proof {
            assert(d@.take(i + 1).drop_last() =~= d@.take(i as int));
        }
        i = i + 1;
    }
    assert(d@.take(32) =~= d@);
    out
}

/// First 8 hex characters of the SHA-256 of `data`.
pub fn content_hash(data: &[u8]) -> (h: String)
    ensures
        h@ == content_hash_spec(data@),
{
    let d = sha256(data);
    let mut out = String::new();
    let mut i: usize = 0;
    while i < 4
        invariant
            i <= 4,
            d@.len() == 32,
            d@ == sha256_digest(data@),
            out@ == hex_lower_bytes(d@.take(i as int)),
        decreases 4 - i,
    {
        let b = d[i];
        push_char(&mut out, lower_hex(b / 16));
        push_char(&mut out, lower_hex(b % 16));
        proof {
            assert(d@.take(i + 1).drop_last() =~= d@.take(i as int));
        }
        i = i + 1;
    }
    out
}

/// `{stem}.{hash}.{ext}`
pub open spec fn hashed_name_spec(stem: Seq<char>, hash: Seq<char>, ext: Seq<char>) -> Seq<char> {
    stem + seq!['.'] + hash + seq!['.'] + ext
}

/// The file name a hashed asset is renamed to.
pub fn hashed_asset_name(stem: &str, hash: &str, ext: &str) -> (r: String)
    ensures
        r@ == hashed_name_spec(stem@, hash@, ext@),
{
    let mut r = stem.to_owned();
    push_char(&mut r, '.');
    r.append(hash);
    push_char(&mut r, '.');
    r.append(ext);
    r
}

// ---------------------------------------------------------------------------
// str::replace
// ---------------------------------------------------------------------------

/// `s[pos..]` with every non-overlapping occurrence of a non-empty `p`, found
/// left to right, replaced by `q`.
pub open spec fn replace_from(s: Seq<char>, p: Seq<char>, q: Seq<char>, pos: int) -> Seq<char>
    decreases s.len() - pos,
{
    if pos < 0 || pos >= s.len() || p.len() == 0 {
        if 0 <= pos <= s.len() { s.skip(pos) } else { Seq::empty() }
    } else if occurs_at(s, p, pos) {
        q + replace_from(s, p, q, pos + p.len())
    } else {
        seq![s[pos]] + replace_from(s, p, q, pos + 1)
    }
}

/// `str::replace(s, p, q)`: with an empty `p`, `q` goes before every character and at the end.
pub open spec fn replace_all(s: Seq<char>, p: Seq<char>, q: Seq<char>) -> Seq<char> {
    if p.len() == 0 {
        crate::text::flat_map_chars(s, |c: char| q + seq![c]) + q
    } else {
        replace_from(s, p, q, 0)
    }
}

/// Replace every occurrence of `p` in `s` by `q` (as `str::replace` does).
pub fn replace_str(s: &str, p: &str, q: &str) -> (r: String)
    ensures
        r@ == replace_all(s@, p@, q@),
{
    let sv = chars_of(s);
    let pv = chars_of(p);
    let mut out = String::new();
    if pv.len() == 0 {
        let mut i: usize = 0;
        while i < sv.len()
            invariant
                i <= sv@.len(),
                out@ == crate::text::flat_map_chars(sv@.take(i as int), |c: char| q@ + seq![c]),
            decreases sv@.len() - i,
        {
            proof {
                crate::text::lemma_flat_map_take(sv@, i as int, |c: char| q@ + seq![c]);
            }
            out.append(q);
            push_char(&mut out, sv[i]);
            i = i + 1;
        }
        assert(sv@.take(sv@.len() as int) =~= sv@);
        out.append(q);
        return out;
    }
    let mut pos: usize = 0;
    while pos < sv.len()
        invariant
            pv@.len() > 0,
            pos <= sv@.len(),
            sv@ == s@,
            pv@ == p@,
            out@ + replace_from(sv@, pv@, q@, pos as int) == replace_from(sv@, pv@, q@, 0),
        decreases sv@.len() - pos,
    {
        let ghost before = out@;
        if occurs_at_exec(&sv, &pv, pos) {
            out.append(q);
            proof {
                assert(before + (q@ + replace_from(sv@, pv@, q@, pos + pv@.len()))
                    =~= out@ + replace_from(sv@, pv@, q@, pos + pv@.len()));
            }
            pos = pos + pv.len();
        } else {
            push_char(&mut out, sv[pos]);
            proof {
                assert(before + (seq![sv@[pos as int]] + replace_from(sv@, pv@, q@, pos + 1))
                    =~= out@ + replace_from(sv@, pv@, q@, pos + 1));
            }
            pos = pos + 1;
        }
    }
    assert(replace_from(sv@, pv@, q@, pos as int) =~= Seq::<char>::empty());
    assert(out@ + Seq::<char>::empty() =~= out@);
    out
}

/// `html` after replacing each original asset path by its hashed path, in
/// order, together with whether any path occurred.
pub open spec fn rewrite_refs(html: Seq<char>, renames: Seq<(Seq<char>, Seq<char>)>) -> (Seq<char>, bool)
    decreases renames.len(),
{
    if renames.len() == 0 {
        (html, false)
    } else {
        let (h, changed) = rewrite_refs(html, renames.drop_last());
        let (orig, hashed) = renames.last();
        if crate::text::contains_seq(h, orig) {
            (replace_all(h, orig, hashed), true)
        } else {
            (h, changed)
        }
    }
}

/// Point an HTML page at hashed asset names; also says whether anything changed.
pub fn rewrite_asset_refs(html: &str, renames: &Vec<(String, String)>) -> (r: (String, bool))
    ensures
        (r.0@, r.1) == rewrite_refs(html@, renames@.map_values(|p: (String, String)| (p.0@, p.1@))),
{
    let ghost rs = renames@.map_values(|p: (String, String)| (p.0@, p.1@));
    let mut h = html.to_owned();
    let mut changed = false;
    let mut i: usize = 0;
    while i < renames.len()
        invariant
            i <= renames@.len(),
            rs == renames@.map_values(|p: (String, String)| (p.0@, p.1@)),
            (h@, changed) == rewrite_refs(html@, rs.take(i as int)),
        decreases renames@.len() - i,
    {
        proof {
            assert(rs.take(i + 1).drop_last() =~= rs.take(i as int));
        }
        if crate::text::str_contains(h.as_str(), renames[i].0.as_str()) {
            h = replace_str(h.as_str(), renames[i].0.as_str(), renames[i].1.as_str());
            changed = true;
        }
        i = i + 1;
    }
    assert(rs.take(renames@.len() as int) =~= rs);
    (h, changed)
}

/// Backslashes turned into forward slashes (`replace('\\', "/")` on a relative path).
pub fn to_forward_slashes(path: &str) -> (r: String)
    ensures
        r@ == replace_all(path@, seq!['\\'], seq!['/']),
{
    let r = replace_str(path, "\\", "/");
    proof {
        reveal_strlit("\\");
        reveal_strlit("/");
        assert("\\"@ =~= seq!['\\']);
        assert("/"@ =~= seq!['/']);
    }
    r
}

} // verus!
