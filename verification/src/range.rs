//! Ranges over the input's character sequence.

use vstd::prelude::*;

verus! {

/// A range over the input's character sequence: an offset and a length.
/// The length may be zero (an empty match).
#[derive(Clone, Copy, Debug, PartialEq, Eq, Structural)]
pub struct Range {
    /// The first character offset covered by the range.
    pub offset: usize,
    /// The number of characters covered by the range.
    pub length: usize,
}

impl Range {
    /// The offset one past the end of the range.
    pub open spec fn end(self) -> int {
        self.offset + self.length
    }

    /// Creates a new range.
    pub fn new(offset: usize, length: usize) -> (r: Range)
        ensures
            r == (Range { offset, length }),
    {
        Range { offset, length }
    }

    /// Creates an empty range at an offset.
    pub fn empty(offset: usize) -> (r: Range)
        ensures
            r == (Range { offset, length: 0 }),
    {
        Range { offset, length: 0 }
    }

    /// Returns the offset just after the range.
    pub fn next_offset(&self) -> (r: usize)
        requires
            self.end() <= usize::MAX,
        ensures
            r == self.end(),
    {
        self.offset + self.length
    }

    /// Returns the intersection of this range with another, where ranges
    /// that merely touch at an end still count as intersecting (with an
    /// empty result), or nothing when the two lie strictly apart.
    pub fn ends_intersect(&self, other: &Range) -> (r: Option<Range>)
        requires
            self.end() <= usize::MAX,
            other.end() <= usize::MAX,
        ensures
            match r {
                Some(rr) => {
                    &&& self.offset <= other.end()
                    &&& other.offset <= self.end()
                    &&& rr.offset == if self.offset >= other.offset {
                        self.offset as int
                    } else {
                        other.offset as int
                    }
                    &&& rr.end() == if self.end() <= other.end() {
                        self.end()
                    } else {
                        other.end()
                    }
                },
                None => other.end() < self.offset || other.offset > self.end(),
            },
    {
        let this_end = self.offset + self.length;
        let other_end = other.offset + other.length;
        if other_end < self.offset || other.offset > this_end {
            None
        } else {
            let offset = if self.offset >= other.offset {
                self.offset
            } else {
                other.offset
            };
            let end = if this_end <= other_end {
                this_end
            } else {
                other_end
            };
            Some(Range { offset, length: end - offset })
        }
    }
}

} // verus!
