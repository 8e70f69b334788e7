//! The select rule.

use vstd::prelude::*;
use crate::MetaData;
use crate::DebugId;
use crate::diagnostics::err_update;
use crate::eval::eval;
use crate::eval::eval_select;
use crate::eval::matches_eval;
use crate::eval::merge_soft;
use crate::parse_error::ParseError;
use crate::range::Range;
use crate::rule::ParseResult;
use crate::rule::Rule;
use crate::rule::lemma_rules_size_elem;
use crate::rule::parse_post;
use crate::rule::rules_size;
use crate::rule::soft_fits;
use crate::tokenizer::TokenizerState;

verus! {

/// Stores information about a choice among alternative rules.
#[derive(Debug, PartialEq)]
pub struct Select {
    /// The alternatives, tried in order; the first success wins.
    pub args: Vec<Rule>,
    /// A debug id to track down the rule generating an error.
    pub debug_id: DebugId,
}

impl Select {
    /// Parses a select: tries the alternatives in order against the same
    /// starting cursor and checkpoint, and takes the first success. On
    /// success the diagnostic trail remembers the furthest error among the
    /// failed prior alternatives. If every alternative fails, the reported
    /// error is the furthest-progress error among all attempts. The result
    /// is exactly what the evaluator's specification gives.
    #[verifier::loop_isolation(false)]
    pub fn parse(
        &self,
        tokens: &mut Vec<(Range, MetaData)>,
        state: &TokenizerState,
        chars: &[char],
        offset: usize,
        refs: &[(String, Rule)],
        fuel: usize,
    ) -> (r: ParseResult)
        requires
            state.0 == old(tokens)@.len(),
            offset <= chars@.len(),
            chars@.len() <= usize::MAX,
        ensures
            parse_post(old(tokens)@, final(tokens)@, r, offset as int, chars@.len() as int),
            matches_eval(
                old(tokens)@,
                final(tokens)@,
                r,
                eval_select(
                    self.args@,
                    chars@,
                    offset as int,
                    refs@,
                    fuel as nat,
                    None,
                    self.debug_id,
                ),
                offset as int,
            ),
        decreases fuel, rules_size(self.args@), 1int,
    {
        let ghost toks0 = old(tokens)@;
        let ghost fin = eval_select(
            self.args@,
            chars@,
            offset as int,
            refs@,
            fuel as nat,
            None,
            self.debug_id,
        );
        let mut opt_error: Option<(Range, ParseError)> = None;
        let mut i: usize = 0;
        proof {
            assert(self.args@.skip(0) =~= self.args@);
        }
        while i < self.args.len()
            invariant
                state.0 == toks0.len(),
                i <= self.args@.len(),
                tokens@ == toks0,
                offset <= chars@.len(),
                chars@.len() <= usize::MAX,
                soft_fits(opt_error, chars@.len() as int),
                i == 0 ==> opt_error is None,
                eval_select(
                    self.args@.skip(i as int),
                    chars@,
                    offset as int,
                    refs@,
                    fuel as nat,
                    opt_error,
                    self.debug_id,
                ) == fin,
            decreases self.args@.len() - i,
        {
            proof {
                lemma_rules_size_elem(self.args@, i as int);
                assert(self.args@.skip(i as int)[0] == self.args@[i as int]);
                assert(self.args@.skip(i as int).drop_first() =~= self.args@.skip(i + 1));
            }
            let ghost prev_opt = opt_error;
            match self.args[i].parse(tokens, state, chars, offset, refs, fuel) {
                Ok((range, st, err)) => {
                    err_update(err, &mut opt_error);
                    proof {
                        let sub = eval(self.args@[i as int], chars@, offset as int, refs@, fuel as nat);
                        assert(sub matches Ok((len, evs, soft)) && opt_error == merge_soft(
                            soft,
                            prev_opt,
                        ));
                    }
                    return Ok((range, st, opt_error));
                },
                Err(err) => {
                    err_update(Some(err), &mut opt_error);
                    proof {
                        assert(opt_error == merge_soft(Some(err), prev_opt));
                    }
                },
            }
            i += 1;
        }
        proof {
            assert(self.args@.skip(i as int) =~= Seq::<Rule>::empty());
        }
        match opt_error {
            Some(err) => Err(err),
            // A select with no alternatives has nothing to try.
            None => Err((Range::new(offset, 0), ParseError::ExpectedSomething(self.debug_id))),
        }
    }
}

} // verus!
