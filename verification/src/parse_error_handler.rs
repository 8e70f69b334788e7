//! Locating errors in the source text's lines.
//!
//! The console rendering of an error report is left to callers; this
//! module computes what that rendering needs: the ranges of the source
//! text's lines, against which an error's range is intersected.

use vstd::prelude::*;
use crate::range::Range;
use crate::scanner::chars_of;

verus! {

/// True when `lines` are exactly the newline-separated lines of `s`: they
/// hold no newline themselves, follow one another with one separating
/// character, and cover the text from start to end.
pub open spec fn lines_partition(s: Seq<char>, lines: Seq<Range>) -> bool {
    &&& lines.len() >= 1
    &&& lines[0].offset == 0
    &&& lines.last().end() == s.len()
    &&& forall|k: int, j: int|
        #![trigger lines[k], s[j]]
        0 <= k < lines.len() && lines[k].offset <= j < lines[k].end() ==> s[j] != '\n'
    &&& forall|k: int|
        0 <= k < lines.len() - 1 ==> s[#[trigger] lines[k].end()] == '\n' && lines[k + 1].offset
            == lines[k].end() + 1
}

/// Splits a character sequence into its lines.
#[verifier::loop_isolation(false)]
pub fn line_ranges(chars: &[char]) -> (r: Vec<Range>)
    ensures
        lines_partition(chars@, r@),
{
    let mut out: Vec<Range> = Vec::new();
    let mut start: usize = 0;
    let mut i: usize = 0;
    while i < chars.len()
        invariant
            start <= i <= chars@.len(),
            out@.len() == 0 ==> start == 0,
            out@.len() >= 1 ==> out@[0].offset == 0,
            out@.len() >= 1 ==> out@.last().end() + 1 == start && chars@[out@.last().end()]
                == '\n',
            forall|k: int, j: int|
                #![trigger out@[k], chars@[j]]
                0 <= k < out@.len() && out@[k].offset <= j < out@[k].end() ==> chars@[j] != '\n',
            forall|k: int|
                0 <= k < out@.len() - 1 ==> chars@[#[trigger] out@[k].end()] == '\n' && out@[k
                    + 1].offset == out@[k].end() + 1,
            forall|j: int| start <= j < i ==> #[trigger] chars@[j] != '\n',
        decreases chars@.len() - i,
    {
        if chars[i] == '\n' {
            out.push(Range::new(start, i - start));
            start = i + 1;
        }
        i += 1;
    }
    out.push(Range::new(start, chars.len() - start));
    out
}

/// Locates errors in the lines of a source text. The rendering of a
/// report is left to the caller, which holds the text itself.
pub struct ParseErrorHandler {
    /// The ranges of the text's lines, in order.
    pub lines: Vec<Range>,
}

impl ParseErrorHandler {
    /// Creates a new error handler over a source text.
    pub fn new(text: &str) -> (r: ParseErrorHandler)
        ensures
            lines_partition(text@, r.lines@),
    {
        let chars = chars_of(text);
        ParseErrorHandler { lines: line_ranges(&chars) }
    }
}

} // verus!
