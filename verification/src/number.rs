//! The number rule.

use vstd::prelude::*;
use crate::DebugId;
use crate::MetaData;
use crate::balance::lemma_no_events;
use crate::balance::lemma_push_balanced;
use crate::parse_error::ParseError;
use crate::range::Range;
use crate::rule::ParseResult;
use crate::rule::parse_post;
use crate::scanner::number_token_len;
use crate::scanner::number_value_bits;
use crate::scanner::parse_number_bits;
use crate::scanner::scan_number;
use crate::tokenizer::TokenizerState;
use crate::tokenizer::read_data;

verus! {

/// Contains information about a number.
#[derive(Clone, Debug, PartialEq)]
pub struct Number {
    /// The property to set.
    pub property: Option<String>,
    /// A debug id to track down the rule generating an error.
    pub debug_id: DebugId,
    /// Whether underscore is allowed as a visible separator.
    pub allow_underscore: bool,
}

impl Number {
    /// Parses a number: matches the number token the scanner recognizes at
    /// the cursor and parses its value. Fails when no number token starts
    /// at the cursor, or when the token's value cannot be parsed. When
    /// bound to a property, emits the value (as the bit pattern of an
    /// IEEE-754 double) as a number event.
    pub fn parse(
        &self,
        tokens: &mut Vec<(Range, MetaData)>,
        state: &TokenizerState,
        chars: &[char],
        offset: usize,
    ) -> (r: ParseResult)
        requires
            state.0 == old(tokens)@.len(),
            offset <= chars@.len(),
        ensures
            parse_post(old(tokens)@, final(tokens)@, r, offset as int, chars@.len() as int),
            ({
                let tok = number_token_len(self.allow_underscore, chars@.skip(offset as int));
                match r {
                    Ok((range, st, opt)) => {
                        &&& opt is None
                        &&& tok == Some(range.length as int)
                        &&& ({
                            let bits = number_value_bits(
                                self.allow_underscore,
                                chars@.subrange(offset as int, range.end()),
                            );
                            &&& bits is Some
                            &&& match self.property {
                                Some(name) => final(tokens)@ == old(tokens)@.push(
                                    (range, MetaData::F64(name, bits->Some_0)),
                                ),
                                None => final(tokens)@ == old(tokens)@ && st == *state,
                            }
                        })
                    },
                    Err((rg, e)) => rg.offset == offset && match e {
                        ParseError::ExpectedNumber(id) => {
                            &&& id == self.debug_id
                            &&& tok is None
                            &&& rg.length == 0
                        },
                        ParseError::ParseNumberError(id) => {
                            &&& id == self.debug_id
                            &&& tok == Some(rg.length as int)
                            &&& number_value_bits(
                                self.allow_underscore,
                                chars@.subrange(offset as int, rg.end()),
                            ) is None
                        },
                        _ => false,
                    },
                }
            }),
    {
        match scan_number(self.allow_underscore, chars, offset) {
            Some(n) => {
                let range = Range::new(offset, n);
                match parse_number_bits(self.allow_underscore, chars, offset, n) {
                    Some(bits) => {
                        match &self.property {
                            Some(name) => {
                                let data = MetaData::F64(name.clone(), bits);
                                let ghost ev = (range, data);
                                let st = read_data(tokens, data, state, range);
                                proof {
                                    lemma_push_balanced(old(tokens)@, ev);
                                }
                                Ok((range, st, None))
                            },
                            None => {
                                proof {
                                    lemma_no_events(tokens@);
                                }
                                Ok((range, *state, None))
                            },
                        }
                    },
                    None => Err((range, ParseError::ParseNumberError(self.debug_id))),
                }
            },
            None => Err((Range::new(offset, 0), ParseError::ExpectedNumber(self.debug_id))),
        }
    }
}

} // verus!
