//! The node reference rule.

use vstd::prelude::*;
use crate::MetaData;
use crate::DebugId;
use crate::balance::lemma_no_events;
use crate::balance::lemma_wrap_events;
use crate::eval::DataRep;
use crate::eval::eval;
use crate::eval::eval_node;
use crate::eval::lemma_events_match_concat;
use crate::eval::matches_eval;
use crate::eval::range_at;
use crate::parse_error::ParseError;
use crate::range::Range;
use crate::rule::ParseResult;
use crate::rule::Rule;
use crate::rule::parse_post;
use crate::tokenizer::TokenizerState;
use crate::tokenizer::read_data;

verus! {

/// A reference to another rule in the same collection, by name, resolved
/// to a position by the linker before any parse.
#[derive(Clone, Debug, PartialEq)]
pub struct Node {
    /// The name of the referenced rule.
    pub name: String,
    /// The property to set: when bound, the referenced rule's output is
    /// bracketed by start and end structural events.
    pub property: Option<String>,
    /// A debug id to track down the rule generating an error.
    pub debug_id: DebugId,
    /// The index of the referenced rule, set by the linker.
    pub index: Option<usize>,
}

impl Node {
    /// Parses a node: re-enters the evaluator with the referenced rule.
    /// Fails with an invalid-rule error when the node was not linked, the
    /// index is out of bounds, or the reference chain exceeds the
    /// evaluation depth. When bound to a property, the referenced rule's
    /// output is wrapped in start and end node events through the
    /// checkpointed write path, so rollback still discards them correctly.
    /// The result is exactly what the evaluator's specification gives.
    pub fn parse(
        &self,
        tokens: &mut Vec<(Range, MetaData)>,
        state: &TokenizerState,
        chars: &[char],
        offset: usize,
        refs: &[(String, Rule)],
        fuel: usize,
    ) -> (r: ParseResult)
        requires
            state.0 == old(tokens)@.len(),
            offset <= chars@.len(),
            chars@.len() <= usize::MAX,
        ensures
            parse_post(old(tokens)@, final(tokens)@, r, offset as int, chars@.len() as int),
            matches_eval(
                old(tokens)@,
                final(tokens)@,
                r,
                eval_node(*self, chars@, offset as int, refs@, fuel as nat),
                offset as int,
            ),
        decreases fuel, 0int, 1int,
    {
        let ghost toks0 = old(tokens)@;
        proof {
            lemma_no_events(toks0);
        }
        let index = match self.index {
            None => {
                return Err((Range::new(offset, 0), ParseError::InvalidRule(self.debug_id)));
            },
            Some(i) => i,
        };
        if index >= refs.len() || fuel == 0 {
            return Err((Range::new(offset, 0), ParseError::InvalidRule(self.debug_id)));
        }
        let ghost sub = eval(refs@[index as int].1, chars@, offset as int, refs@, (fuel - 1) as nat);
        match &self.property {
            Some(prop) => {
                let start_ev = MetaData::StartNode(prop.clone());
                let ghost s_ev = (Range { offset, length: 0 }, start_ev);
                let st = read_data(tokens, start_ev, state, Range::new(offset, 0));
                let ghost t1 = tokens@;
                match refs[index].1.parse(tokens, &st, chars, offset, refs, fuel - 1) {
                    Err(err) => {
                        tokens.truncate(state.0);
                        proof {
                            assert(tokens@ =~= toks0);
                        }
                        Err(err)
                    },
                    Ok((range, new_st, err)) => {
                        let ghost t2 = tokens@;
                        let end_ev = MetaData::EndNode(prop.clone());
                        let ghost e_ev = (range, end_ev);
                        let final_st = read_data(tokens, end_ev, &new_st, range);
                        proof {
                            lemma_wrap_events(toks0, t1, t2, tokens@, s_ev, e_ev);
                            let (len, evs, soft) = sub->Ok_0;
                            let s_rep = (range_at(offset as int, 0), DataRep::Exact(
                                MetaData::StartNode(self.property->Some_0),
                            ));
                            let e_rep = (range_at(offset as int, len), DataRep::Exact(
                                MetaData::EndNode(self.property->Some_0),
                            ));
                            assert(seq![s_ev][0] == s_ev && seq![s_rep][0] == s_rep);
                            assert(seq![e_ev][0] == e_ev && seq![e_rep][0] == e_rep);
                            lemma_events_match_concat(
                                seq![s_ev],
                                seq![s_rep],
                                t2.skip(t1.len() as int),
                                evs,
                            );
                            lemma_events_match_concat(
                                seq![s_ev] + t2.skip(t1.len() as int),
                                seq![s_rep] + evs,
                                seq![e_ev],
                                seq![e_rep],
                            );
                        }
                        Ok((range, final_st, err))
                    },
                }
            },
            None => refs[index].1.parse(tokens, state, chars, offset, refs, fuel - 1),
        }
    }
}

} // verus!
