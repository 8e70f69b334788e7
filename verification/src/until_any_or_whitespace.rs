//! The rule that reads until a stop character or whitespace.

use vstd::prelude::*;
use crate::DebugId;
use crate::MetaData;
use crate::balance::lemma_no_events;
use crate::balance::lemma_push_balanced;
use crate::parse_error::ParseError;
use crate::range::Range;
use crate::rule::ParseResult;
use crate::rule::parse_post;
use crate::scanner::is_space;
use crate::scanner::scan_until_any_or_whitespace;
use crate::scanner::string_from_chars;
use crate::tokenizer::TokenizerState;
use crate::tokenizer::read_data;

verus! {

/// Stores information about reading until whitespace or any of some
/// characters.
#[derive(Clone, Debug, PartialEq)]
pub struct UntilAnyOrWhitespace {
    /// The characters to stop at.
    pub any_characters: String,
    /// Whether empty data is accepted or not.
    pub optional: bool,
    /// The property to store the read text in.
    pub property: Option<String>,
    /// A debug id to track down the rule generating an error.
    pub debug_id: DebugId,
}

impl UntilAnyOrWhitespace {
    /// Parses until whitespace or any of the stop characters: greedily
    /// consumes every character before the first stop character or
    /// whitespace. Fails only when nothing was consumed and the rule is
    /// not optional. When bound to a property, emits the consumed text as
    /// a string event.
    pub fn parse(
        &self,
        tokens: &mut Vec<(Range, MetaData)>,
        state: &TokenizerState,
        chars: &[char],
        offset: usize,
    ) -> (r: ParseResult)
        requires
            state.0 == old(tokens)@.len(),
            offset <= chars@.len(),
        ensures
            parse_post(old(tokens)@, final(tokens)@, r, offset as int, chars@.len() as int),
            match r {
                Ok((range, st, opt)) => {
                    &&& opt is None
                    &&& forall|i: int|
                        offset <= i < range.end() ==> !is_space(#[trigger] chars@[i])
                            && !self.any_characters@.contains(chars@[i])
                    &&& range.end() < chars@.len() ==> (is_space(chars@[range.end()])
                        || self.any_characters@.contains(chars@[range.end()]))
                    &&& self.optional || range.length > 0
                    &&& match self.property {
                        Some(name) => {
                            &&& final(tokens)@.len() == old(tokens)@.len() + 1
                            &&& final(tokens)@.last().0 == range
                            &&& match final(tokens)@.last().1 {
                                MetaData::String(nm, v) => nm == name && v@ == chars@.subrange(
                                    offset as int,
                                    range.end(),
                                ),
                                _ => false,
                            }
                        },
                        None => final(tokens)@ == old(tokens)@ && st == *state,
                    }
                },
                Err((rg, e)) => {
                    &&& !self.optional
                    &&& rg.offset == offset
                    &&& rg.length == 0
                    &&& e == ParseError::ExpectedSomething(self.debug_id)
                    &&& offset < chars@.len() ==> (is_space(chars@[offset as int])
                        || self.any_characters@.contains(chars@[offset as int]))
                },
            },
    {
        let n = scan_until_any_or_whitespace(self.any_characters.as_str(), chars, offset);
        let range = Range::new(offset, n);
        if n == 0 && !self.optional {
            Err((range, ParseError::ExpectedSomething(self.debug_id)))
        } else {
            match &self.property {
                Some(name) => {
                    let text = string_from_chars(chars, offset, n);
                    let data = MetaData::String(name.clone(), text);
                    let ghost ev = (range, data);
                    let st = read_data(tokens, data, state, range);
                    proof {
                        lemma_push_balanced(old(tokens)@, ev);
                    }
                    Ok((range, st, None))
                },
                None => {
                    proof {
                        lemma_no_events(tokens@);
                    }
                    Ok((range, *state, None))
                },
            }
        }
    }
}

} // verus!
