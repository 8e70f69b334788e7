//! The repeat rule.

use vstd::prelude::*;
use crate::MetaData;
use crate::DebugId;
use crate::balance::balanced;
use crate::balance::lemma_extend;
use crate::balance::lemma_no_events;
use crate::balance::lemma_prefix_trans;
use crate::balance::lemma_skip_append;
use crate::diagnostics::err_update;
use crate::diagnostics::ret_err;
use crate::eval::DataRep;
use crate::eval::eval;
use crate::eval::eval_repeat;
use crate::eval::events_match;
use crate::eval::lemma_events_match_concat;
use crate::eval::matches_eval;
use crate::eval::merge_soft;
use crate::eval::pick_err;
use crate::parse_error::ParseError;
use crate::range::Range;
use crate::rule::ParseResult;
use crate::rule::Rule;
use crate::rule::parse_post;
use crate::rule::rule_size;
use crate::rule::soft_fits;
use crate::tokenizer::TokenizerState;

verus! {

/// Stores information about a repeated rule.
#[derive(Debug, PartialEq)]
pub struct Repeat {
    /// The rule to repeat.
    pub rule: Box<Rule>,
    /// Whether the rule can match zero times.
    pub optional: bool,
    /// A debug id to track down the rule generating an error.
    pub debug_id: DebugId,
}

impl Repeat {
    /// Parses the wrapped rule repeatedly until it fails. The final,
    /// expected failure that terminates the loop is folded into the soft
    /// diagnostic trail — unless zero iterations succeeded and at least
    /// one was required, in which case the very first failure is hard. A
    /// match that consumes nothing also ends the loop, since repeating it
    /// cannot advance the cursor. The result is exactly what the
    /// evaluator's specification gives.
    #[verifier::loop_isolation(false)]
    pub fn parse(
        &self,
        tokens: &mut Vec<(Range, MetaData)>,
        state: &TokenizerState,
        chars: &[char],
        offset: usize,
        refs: &[(String, Rule)],
        fuel: usize,
    ) -> (r: ParseResult)
        requires
            state.0 == old(tokens)@.len(),
            offset <= chars@.len(),
            chars@.len() <= usize::MAX,
        ensures
            parse_post(old(tokens)@, final(tokens)@, r, offset as int, chars@.len() as int),
            r is Err ==> !self.optional,
            matches_eval(
                old(tokens)@,
                final(tokens)@,
                r,
                eval_repeat(
                    *self.rule,
                    chars@,
                    offset as int,
                    refs@,
                    fuel as nat,
                    self.optional,
                    true,
                    None,
                ),
                offset as int,
            ),
        decreases fuel, rule_size(*self.rule), 1int,
    {
        let ghost toks0 = old(tokens)@;
        let ghost fin = eval_repeat(
            *self.rule,
            chars@,
            offset as int,
            refs@,
            fuel as nat,
            self.optional,
            true,
            None,
        );
        let mut off: usize = offset;
        let mut st: TokenizerState = *state;
        let mut opt_error: Option<(Range, ParseError)> = None;
        let mut first: bool = true;
        let ghost mut reps: Seq<(Range, DataRep)> = Seq::empty();
        proof {
            lemma_no_events(toks0);
            match fin {
                Ok(o) => {
                    assert(Seq::<(Range, DataRep)>::empty() + o.1 =~= o.1);
                },
                Err(e) => {},
            }
        }
        loop
            invariant
                state.0 == toks0.len(),
                st.0 == tokens@.len(),
                toks0.is_prefix_of(tokens@),
                balanced(tokens@.skip(toks0.len() as int)),
                offset <= off <= chars@.len(),
                chars@.len() <= usize::MAX,
                soft_fits(opt_error, chars@.len() as int),
                first ==> tokens@ == toks0 && off == offset && opt_error is None,
                events_match(tokens@.skip(toks0.len() as int), reps),
                match eval_repeat(
                    *self.rule,
                    chars@,
                    off as int,
                    refs@,
                    fuel as nat,
                    self.optional,
                    first,
                    opt_error,
                ) {
                    Ok(o) => fin == Ok::<_, (Range, ParseError)>(
                        ((off - offset) + o.0, reps + o.1, o.2),
                    ),
                    Err(e) => fin == Err::<(int, Seq<(Range, DataRep)>, Option<(Range, ParseError)>), _>(
                        e,
                    ),
                },
            decreases chars@.len() - off,
        {
            let ghost mid = tokens@;
            let ghost prev_opt = opt_error;
            let ghost sub = eval(*self.rule, chars@, off as int, refs@, fuel as nat);
            match self.rule.parse(tokens, &st, chars, off, refs, fuel) {
                Err(err) => {
                    if first && !self.optional {
                        let hard = ret_err(err, opt_error);
                        proof {
                            assert(hard == pick_err(err, prev_opt));
                        }
                        return Err(hard);
                    } else {
                        err_update(Some(err), &mut opt_error);
                        proof {
                            assert(opt_error == merge_soft(Some(err), prev_opt));
                            assert(reps + Seq::<(Range, DataRep)>::empty() =~= reps);
                        }
                        return Ok((Range::new(offset, off - offset), st, opt_error));
                    }
                },
                Ok((range, new_st, err)) => {
                    proof {
                        lemma_prefix_trans(toks0, mid, tokens@);
                        lemma_extend(mid, tokens@, toks0.len() as int);
                    }
                    st = new_st;
                    err_update(err, &mut opt_error);
                    let ghost reps0 = reps;
                    proof {
                        let (len, evs, soft) = sub->Ok_0;
                        let rest = tokens@.skip(mid.len() as int);
                        assert(mid =~= tokens@.subrange(0, mid.len() as int));
                        assert(tokens@ =~= mid + rest);
                        lemma_skip_append(mid, rest, toks0.len() as int);
                        lemma_events_match_concat(mid.skip(toks0.len() as int), reps0, rest, evs);
                        reps = reps0 + evs;
                        assert(opt_error == merge_soft(soft, prev_opt));
                    }
                    if range.length == 0 {
                        // No progress; repeating the rule would match the
                        // same empty range forever.
                        return Ok((Range::new(offset, off - offset), st, opt_error));
                    }
                    proof {
                        let (len, evs, soft) = sub->Ok_0;
                        let rec = eval_repeat(
                            *self.rule,
                            chars@,
                            off + len,
                            refs@,
                            fuel as nat,
                            self.optional,
                            false,
                            opt_error,
                        );
                        match rec {
                            Ok(o2) => {
                                assert((reps0 + evs) + o2.1 =~= reps0 + (evs + o2.1));
                            },
                            Err(e) => {},
                        }
                    }
                    off = range.next_offset();
                    first = false;
                },
            }
        }
    }
}

} // verus!
