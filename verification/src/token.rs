//! The literal token rule.

use vstd::prelude::*;
use crate::DebugId;
use crate::MetaData;
use crate::balance::lemma_no_events;
use crate::balance::lemma_push_balanced;
use crate::parse_error::ParseError;
use crate::range::Range;
use crate::rule::ParseResult;
use crate::rule::parse_post;
use crate::scanner::scan_tag;
use crate::scanner::text_matches_at;
use crate::tokenizer::TokenizerState;
use crate::tokenizer::read_data;

verus! {

/// Stores information about a literal token.
#[derive(Clone, Debug, PartialEq)]
pub struct Token {
    /// The text to match against.
    pub text: String,
    /// Whether to fail when the text matches (success and failure are
    /// swapped).
    pub not: bool,
    /// Which boolean the bound property stores in the branch that emits
    /// the flag directly; the other branch stores its negation.
    pub inverted: bool,
    /// Which property to set when the rule succeeds.
    pub property: Option<String>,
    /// A debug id to track down the rule generating an error.
    pub debug_id: DebugId,
}

impl Token {
    /// Parses a literal token. A plain token succeeds exactly when its
    /// text occurs at the cursor, and, when bound to a property, emits the
    /// boolean `!inverted`. A negated token (`not`) succeeds exactly when
    /// its text does not occur, and, when bound to a property, emits the
    /// boolean `inverted`.
    pub fn parse(
        &self,
        tokens: &mut Vec<(Range, MetaData)>,
        state: &TokenizerState,
        chars: &[char],
        offset: usize,
    ) -> (r: ParseResult)
        requires
            state.0 == old(tokens)@.len(),
            offset <= chars@.len(),
        ensures
            parse_post(old(tokens)@, final(tokens)@, r, offset as int, chars@.len() as int),
            ({
                let matched = text_matches_at(self.text@, chars@, offset as int);
                match r {
                    Ok((range, st, opt)) => {
                        &&& opt is None
                        &&& matched == !self.not
                        &&& range.length == if matched {
                            self.text@.len() as int
                        } else {
                            0
                        }
                        &&& match self.property {
                            Some(name) => final(tokens)@ == old(tokens)@.push(
                                (
                                    range,
                                    MetaData::Bool(
                                        name,
                                        if matched {
                                            !self.inverted
                                        } else {
                                            self.inverted
                                        },
                                    ),
                                ),
                            ),
                            None => final(tokens)@ == old(tokens)@ && st == *state,
                        }
                    },
                    Err((rg, e)) => {
                        &&& rg.offset == offset
                        &&& matched == self.not
                        &&& if matched {
                            rg.length == self.text@.len() as int && e
                                == ParseError::DidNotExpectToken(self.text, self.debug_id)
                        } else {
                            rg.length == 0 && e == ParseError::ExpectedToken(
                                self.text,
                                self.debug_id,
                            )
                        }
                    },
                }
            }),
    {
        match scan_tag(self.text.as_str(), chars, offset) {
            Some(n) => {
                let range = Range::new(offset, n);
                if self.not {
                    Err(
                        (
                            range,
                            ParseError::DidNotExpectToken(self.text.clone(), self.debug_id),
                        ),
                    )
                } else {
                    match &self.property {
                        Some(name) => {
                            let data = MetaData::Bool(name.clone(), !self.inverted);
                            let ghost ev = (range, data);
                            let st = read_data(tokens, data, state, range);
                            proof {
                                lemma_push_balanced(old(tokens)@, ev);
                            }
                            Ok((range, st, None))
                        },
                        None => {
                            proof {
                                lemma_no_events(tokens@);
                            }
                            Ok((range, *state, None))
                        },
                    }
                }
            },
            None => {
                let range = Range::new(offset, 0);
                if self.not {
                    match &self.property {
                        Some(name) => {
                            let data = MetaData::Bool(name.clone(), self.inverted);
                            let ghost ev = (range, data);
                            let st = read_data(tokens, data, state, range);
                            proof {
                                lemma_push_balanced(old(tokens)@, ev);
                            }
                            Ok((range, st, None))
                        },
                        None => {
                            proof {
                                lemma_no_events(tokens@);
                            }
                            Ok((range, *state, None))
                        },
                    }
                } else {
                    Err((range, ParseError::ExpectedToken(self.text.clone(), self.debug_id)))
                }
            },
        }
    }
}

} // verus!
