//! The closed set of diagnostic kinds a parse can report.

use vstd::prelude::*;
use crate::DebugId;

verus! {

/// Errors reporting why a rule rejected input. Each variant carries the
/// debug id of the rule that generated it, to track the error down.
#[derive(Clone, Debug, PartialEq)]
pub enum ParseError {
    /// Expected a literal token.
    ExpectedToken(String, DebugId),
    /// Did not expect a literal token (the token rule was negated).
    DidNotExpectToken(String, DebugId),
    /// Expected at least one whitespace character.
    ExpectedWhitespace(DebugId),
    /// Expected a new line after a successful line match.
    ExpectedNewLine(DebugId),
    /// Expected a number token.
    ExpectedNumber(DebugId),
    /// The scanner recognized a number token but could not parse its value.
    ParseNumberError(DebugId),
    /// Expected a quoted text string.
    ExpectedText(DebugId),
    /// Expected at least one character before a stop character or
    /// whitespace.
    ExpectedSomething(DebugId),
    /// The rule is invalid: a node reference that was not linked to an
    /// index, an index out of bounds, or a reference chain deeper than the
    /// evaluation allows.
    InvalidRule(DebugId),
}

} // verus!
