//! Indentation configuration for line-oriented grammars.

use vstd::prelude::*;

verus! {

/// Stores indent settings: how much leading whitespace a multi-line
/// continuation may consume in an indentation-structured grammar.
#[derive(Clone, Copy, Debug, PartialEq, Eq, Structural)]
pub struct IndentSettings {
    /// The current indention.
    pub indent: u32,
    /// Whether to align indention to the first line.
    pub align_first: bool,
}

impl Default for IndentSettings {
    /// No indention, aligned to the first line.
    fn default() -> (s: IndentSettings)
        ensures
            s.indent == 0,
            s.align_first,
    {
        IndentSettings { indent: 0, align_first: true }
    }
}

} // verus!
