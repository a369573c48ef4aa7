//! Estimated reading time of a page's text.
use vstd::prelude::*;
use crate::text::{chars_of, is_white_space};

verus! {

/// Average words per minute for reading time calculation.
pub const WORDS_PER_MINUTE: usize = 200;

/// Number of maximal runs of non-whitespace characters (`split_whitespace().count()`).
pub open spec fn word_count(s: Seq<char>) -> nat
    decreases s.len(),
{
    if s.len() == 0 {
        0
    } else {
        word_count(s.drop_last()) + if !is_white_space(s.last()) && (s.len() == 1
            || is_white_space(s[s.len() - 2])) {
            1nat
        } else {
            0nat
        }
    }
}

/// Minutes to read `text`: words divided by 200, rounded up, at least 1.
pub open spec fn reading_minutes(text: Seq<char>) -> int {
    let m = (word_count(text) + 199) / 200;
    if m < 1 { 1 } else { m as int }
}

/// A plugin that calculates reading time from page content.
pub struct ReadingTimePlugin;

impl ReadingTimePlugin {
    /// The plugin's name.
    pub fn name(&self) -> (r: &'static str)
        ensures
            r@ == "reading-time"@,
    {
        "reading-time"
    }

    /// Estimated reading time in whole minutes.
    pub fn estimate_minutes(text: &str) -> (m: u64)
        ensures
            m == reading_minutes(text@),
    {
        let v = chars_of(text);
        let mut count: usize = 0;
        let mut i: usize = 0;
        while i < v.len()
            invariant
                i <= v@.len(),
                count == word_count(v@.take(i as int)),
                count <= i,
            decreases v@.len() - i,
        {
            proof {
                assert(v@.take(i + 1).drop_last() =~= v@.take(i as int));
            }
            let c = v[i];
            let ws = crate::frontmatter::is_white_space_char(c);
            if !ws && (i == 0 || crate::frontmatter::is_white_space_char(v[i - 1])) {
                count = count + 1;
            }
            i = i + 1;
        }
        assert(v@.take(v@.len() as int) =~= v@);
        let minutes = (count / 200) + if count % 200 == 0 { 0 } else { 1 };
        assert(minutes == (count + 199) / 200) by (nonlinear_arith)
            requires minutes == (count / 200) + if count % 200 == 0 { 0int } else { 1int };
        if minutes < 1 { 1 } else { minutes as u64 }
    }
}

} // verus!
