//! The first lines of a text, as shown where the whole text is kept in a
//! file.

use crate::text::{
    chars_of, copy_range, lines_of, lines_view, split_lines, string_of, strings_view, trim,
    trim_bounds,
};
use vstd::prelude::*;

verus! {

/// How many lines of the input and of each output are shown of a mismatch.
pub const PREVIEW_LIMIT: usize = 5;

/// The first lines of a text.
#[derive(Debug)]
pub struct Preview {
    pub lines: Vec<String>,
    /// The text has more lines than are shown.
    pub truncated: bool,
}

/// The lines shown of `s` where at most `limit` lines are shown: the first
/// lines of the trimmed text.
pub open spec fn shown_lines(s: Seq<char>, limit: nat) -> Seq<Seq<char>> {
    let all = lines_of(trim(s));
    if all.len() <= limit {
        all
    } else {
        all.take(limit as int)
    }
}

/// The trimmed text has more than `limit` lines.
pub open spec fn is_truncated(s: Seq<char>, limit: nat) -> bool {
    lines_of(trim(s)).len() > limit
}

/// The first `limit` lines of the trimmed text, and whether there are more.
pub fn preview(text: &str, limit: usize) -> (p: Preview)
    ensures
        strings_view(p.lines@) == shown_lines(text@, limit as nat),
        p.truncated == is_truncated(text@, limit as nat),
{
    let v = chars_of(text);
    let (a, b) = trim_bounds(&v);
    let trimmed = copy_range(&v, a, b);
    let all = split_lines(&trimmed);
    let n = if all.len() <= limit {
        all.len()
    } else {
        limit
    };
    let ghost want = lines_of(trim(text@));
    let mut lines: Vec<String> = Vec::new();
    let mut i: usize = 0;
    while i < n
        invariant
            i <= n <= all.len(),
            lines_view(all@) == want,
            strings_view(lines@) == want.take(i as int),
        decreases n - i,
    {
        let line = &all[i];
        let s = string_of(line, 0, line.len());
        proof {
            assert(line@.subrange(0, line.len() as int) =~= line@);
            assert(lines_view(all@)[i as int] == line@);
        }
        let ghost before = strings_view(lines@);
        lines.push(s);
        proof {
            assert(strings_view(lines@) =~= before.push(s@));
            assert(want.take(i + 1) =~= want.take(i as int).push(want[i as int]));
        }
        i += 1;
    }
    proof {
        if all.len() <= limit {
            assert(want.take(n as int) =~= want);
        }
    }
    Preview { lines, truncated: all.len() > limit }
}

} // verus!
