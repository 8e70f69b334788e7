//! The event buffer's checkpointed write path.

use vstd::prelude::*;
use crate::MetaData;
use crate::range::Range;

verus! {

/// A checkpoint into the event buffer: the number of events committed so
/// far. Rolling back to a checkpoint discards every event appended after
/// it was taken.
#[derive(Clone, Copy, Debug, PartialEq, Eq, Structural)]
pub struct TokenizerState(pub usize);

impl TokenizerState {
    /// Creates a checkpoint at the start of an empty event buffer.
    pub fn new() -> (s: TokenizerState)
        ensures
            s.0 == 0,
    {
        TokenizerState(0)
    }
}

/// Appends one event through the checkpointed write path and returns the
/// checkpoint just after it. The buffer always stands exactly at the given
/// checkpoint, so the write only ever extends it.
pub fn read_data(
    tokens: &mut Vec<(Range, MetaData)>,
    data: MetaData,
    state: &TokenizerState,
    range: Range,
) -> (s: TokenizerState)
    requires
        state.0 == old(tokens)@.len(),
    ensures
        final(tokens)@ == old(tokens)@.push((range, data)),
        s.0 == final(tokens)@.len(),
{
    tokens.push((range, data));
    TokenizerState(tokens.len())
}

} // verus!
