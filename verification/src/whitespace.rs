//! The whitespace rule.

use vstd::prelude::*;
use crate::DebugId;
use crate::parse_error::ParseError;
use crate::range::Range;
use crate::scanner::is_space;
use crate::scanner::scan_whitespace;

verus! {

/// Stores information about whitespace.
#[derive(Clone, Debug, PartialEq)]
pub struct Whitespace {
    /// Whether the whitespace is optional or required.
    pub optional: bool,
    /// A debug id to track down the rule generating an error.
    pub debug_id: DebugId,
}

impl Whitespace {
    /// Parses whitespace: matches the maximal whitespace run at the
    /// cursor. Fails only when whitespace is required and none is found.
    pub fn parse(&self, chars: &[char], offset: usize) -> (r: Result<
        Range,
        (Range, ParseError),
    >)
        requires
            offset <= chars@.len(),
        ensures
            match r {
                Ok(range) => {
                    &&& range.offset == offset
                    &&& range.end() <= chars@.len()
                    &&& forall|i: int| offset <= i < range.end() ==> is_space(#[trigger] chars@[i])
                    &&& range.end() < chars@.len() ==> !is_space(chars@[range.end()])
                    &&& self.optional || range.length > 0
                },
                Err((rg, e)) => {
                    &&& !self.optional
                    &&& rg.offset == offset
                    &&& rg.length == 0
                    &&& e == ParseError::ExpectedWhitespace(self.debug_id)
                    &&& offset < chars@.len() ==> !is_space(chars@[offset as int])
                },
            },
    {
        let n = scan_whitespace(chars, offset);
        if n == 0 && !self.optional {
            Err((Range::new(offset, 0), ParseError::ExpectedWhitespace(self.debug_id)))
        } else {
            Ok(Range::new(offset, n))
        }
    }
}

} // verus!
