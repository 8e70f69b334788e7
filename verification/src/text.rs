//! The quoted text rule.

use vstd::prelude::*;
use crate::DebugId;
use crate::MetaData;
use crate::balance::lemma_no_events;
use crate::balance::lemma_push_balanced;
use crate::parse_error::ParseError;
use crate::range::Range;
use crate::rule::ParseResult;
use crate::rule::parse_post;
use crate::scanner::parse_string_value;
use crate::scanner::scan_string;
use crate::scanner::string_token_len;
use crate::scanner::string_value;
use crate::tokenizer::TokenizerState;
use crate::tokenizer::read_data;

verus! {

/// Stores information about quoted text.
#[derive(Clone, Debug, PartialEq)]
pub struct Text {
    /// Whether the text is allowed to be empty.
    pub allow_empty: bool,
    /// The property to store the text in.
    pub property: Option<String>,
    /// A debug id to track down the rule generating an error.
    pub debug_id: DebugId,
}

impl Text {
    /// Parses quoted text: matches the string-literal token the scanner
    /// recognizes at the cursor and decodes its escapes. Fails when no
    /// string literal starts at the cursor, when the escapes are invalid,
    /// or when the text is empty and empty text is not allowed. When bound
    /// to a property, emits the decoded text as a string event.
    pub fn parse(
        &self,
        tokens: &mut Vec<(Range, MetaData)>,
        state: &TokenizerState,
        chars: &[char],
        offset: usize,
    ) -> (r: ParseResult)
        requires
            state.0 == old(tokens)@.len(),
            offset <= chars@.len(),
        ensures
            parse_post(old(tokens)@, final(tokens)@, r, offset as int, chars@.len() as int),
            ({
                let tok = string_token_len(chars@.skip(offset as int));
                match r {
                    Ok((range, st, opt)) => {
                        &&& opt is None
                        &&& tok == Some(range.length as int)
                        &&& range.length >= 2
                        &&& ({
                            let val = string_value(
                                chars@.subrange(offset as int, range.end()),
                            );
                            &&& val is Some
                            &&& self.allow_empty || val->Some_0.len() > 0
                            &&& match self.property {
                                Some(name) => {
                                    &&& final(tokens)@.len() == old(tokens)@.len() + 1
                                    &&& final(tokens)@.last().0 == range
                                    &&& match final(tokens)@.last().1 {
                                        MetaData::String(nm, v) => nm == name && Some(v@) == val,
                                        _ => false,
                                    }
                                },
                                None => final(tokens)@ == old(tokens)@ && st == *state,
                            }
                        })
                    },
                    Err((rg, e)) => {
                        &&& rg.offset == offset
                        &&& e == ParseError::ExpectedText(self.debug_id)
                        &&& if tok is None {
                            rg.length == 0
                        } else {
                            let val = string_value(chars@.subrange(offset as int, rg.end()));
                            &&& tok == Some(rg.length as int)
                            &&& {
                                ||| rg.length < 2
                                ||| val is None
                                ||| (!self.allow_empty && (val matches Some(v) && v.len() == 0))
                            }
                        }
                    },
                }
            }),
    {
        match scan_string(chars, offset) {
            Some(n) => {
                let range = Range::new(offset, n);
                if n < 2 {
                    // The scanner can hand back a lone double quote; the
                    // token then holds no closing quote and no text.
                    return Err((range, ParseError::ExpectedText(self.debug_id)));
                }
                match parse_string_value(chars, offset, n) {
                    Some(text) => {
                        if !self.allow_empty && text.as_str().is_empty() {
                            Err((range, ParseError::ExpectedText(self.debug_id)))
                        } else {
                            match &self.property {
                                Some(name) => {
                                    let data = MetaData::String(name.clone(), text);
                                    let ghost ev = (range, data);
                                    let st = read_data(tokens, data, state, range);
                                    proof {
                                        lemma_push_balanced(old(tokens)@, ev);
                                    }
                                    Ok((range, st, None))
                                },
                                None => {
                                    proof {
                                        lemma_no_events(tokens@);
                                    }
                                    Ok((range, *state, None))
                                },
                            }
                        }
                    },
                    None => Err((range, ParseError::ExpectedText(self.debug_id))),
                }
            },
            None => Err((Range::new(offset, 0), ParseError::ExpectedText(self.debug_id))),
        }
    }
}

} // verus!
