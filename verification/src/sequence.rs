//! The sequence rule.

use vstd::prelude::*;
use crate::MetaData;
use crate::DebugId;
use crate::balance::balanced;
use crate::balance::lemma_extend;
use crate::balance::lemma_no_events;
use crate::balance::lemma_prefix_trans;
use crate::balance::lemma_skip_append;
use crate::diagnostics::err_update;
use crate::diagnostics::ret_err;
use crate::eval::DataRep;
use crate::eval::eval;
use crate::eval::eval_rules;
use crate::eval::events_match;
use crate::eval::lemma_events_match_concat;
use crate::eval::matches_eval;
use crate::eval::merge_soft;
use crate::eval::pick_err;
use crate::parse_error::ParseError;
use crate::range::Range;
use crate::rule::ParseResult;
use crate::rule::Rule;
use crate::rule::lemma_rules_size_elem;
use crate::rule::parse_post;
use crate::rule::rules_size;
use crate::rule::soft_fits;
use crate::tokenizer::TokenizerState;

verus! {

/// Stores information about a sequence of rules.
#[derive(Debug, PartialEq)]
pub struct Sequence {
    /// The sub-rules, which must all succeed in order.
    pub args: Vec<Rule>,
    /// A debug id to track down the rule generating an error.
    pub debug_id: DebugId,
}

impl Sequence {
    /// Parses a sequence: runs the sub-rules left to right over an
    /// advancing cursor, accumulating the furthest diagnostic seen so far.
    /// Fails immediately, and rolls back the whole buffer extension, if
    /// any sub-rule fails. The result is exactly what the evaluator's
    /// specification gives.
    #[verifier::loop_isolation(false)]
    pub fn parse(
        &self,
        tokens: &mut Vec<(Range, MetaData)>,
        state: &TokenizerState,
        chars: &[char],
        offset: usize,
        refs: &[(String, Rule)],
        fuel: usize,
    ) -> (r: ParseResult)
        requires
            state.0 == old(tokens)@.len(),
            offset <= chars@.len(),
            chars@.len() <= usize::MAX,
        ensures
            parse_post(old(tokens)@, final(tokens)@, r, offset as int, chars@.len() as int),
            matches_eval(
                old(tokens)@,
                final(tokens)@,
                r,
                eval_rules(self.args@, chars@, offset as int, refs@, fuel as nat, None),
                offset as int,
            ),
        decreases fuel, rules_size(self.args@), 1int,
    {
        let ghost toks0 = old(tokens)@;
        let ghost fin = eval_rules(self.args@, chars@, offset as int, refs@, fuel as nat, None);
        let mut off: usize = offset;
        let mut st: TokenizerState = *state;
        let mut opt_error: Option<(Range, ParseError)> = None;
        let mut i: usize = 0;
        let ghost mut reps: Seq<(Range, DataRep)> = Seq::empty();
        proof {
            lemma_no_events(toks0);
            assert(self.args@.skip(0) =~= self.args@);
            match fin {
                Ok(o) => {
                    assert(Seq::<(Range, DataRep)>::empty() + o.1 =~= o.1);
                },
                Err(e) => {},
            }
        }
        while i < self.args.len()
            invariant
                state.0 == toks0.len(),
                i <= self.args@.len(),
                st.0 == tokens@.len(),
                toks0.is_prefix_of(tokens@),
                balanced(tokens@.skip(toks0.len() as int)),
                offset <= off <= chars@.len(),
                chars@.len() <= usize::MAX,
                soft_fits(opt_error, chars@.len() as int),
                events_match(tokens@.skip(toks0.len() as int), reps),
                match eval_rules(
                    self.args@.skip(i as int),
                    chars@,
                    off as int,
                    refs@,
                    fuel as nat,
                    opt_error,
                ) {
                    Ok(o) => fin == Ok::<_, (Range, ParseError)>(
                        ((off - offset) + o.0, reps + o.1, o.2),
                    ),
                    Err(e) => fin == Err::<(int, Seq<(Range, DataRep)>, Option<(Range, ParseError)>), _>(
                        e,
                    ),
                },
            decreases self.args@.len() - i,
        {
            proof {
                lemma_rules_size_elem(self.args@, i as int);
                assert(self.args@.skip(i as int)[0] == self.args@[i as int]);
                assert(self.args@.skip(i as int).drop_first() =~= self.args@.skip(i + 1));
            }
            let ghost mid = tokens@;
            let ghost prev_opt = opt_error;
            let ghost sub = eval(self.args@[i as int], chars@, off as int, refs@, fuel as nat);
            match self.args[i].parse(tokens, &st, chars, off, refs, fuel) {
                Ok((range, new_st, err)) => {
                    proof {
                        lemma_prefix_trans(toks0, mid, tokens@);
                        lemma_extend(mid, tokens@, toks0.len() as int);
                    }
                    off = range.next_offset();
                    st = new_st;
                    err_update(err, &mut opt_error);
                    proof {
                        let (len, evs, soft) = sub->Ok_0;
                        let ghost reps0 = reps;
                        let rest = tokens@.skip(mid.len() as int);
                        assert(mid =~= tokens@.subrange(0, mid.len() as int));
                        assert(tokens@ =~= mid + rest);
                        lemma_skip_append(mid, rest, toks0.len() as int);
                        lemma_events_match_concat(mid.skip(toks0.len() as int), reps0, rest, evs);
                        reps = reps0 + evs;
                        assert(opt_error == merge_soft(soft, prev_opt));
                        let rec = eval_rules(
                            self.args@.skip(i + 1),
                            chars@,
                            off as int,
                            refs@,
                            fuel as nat,
                            opt_error,
                        );
                        match rec {
                            Ok(o2) => {
                                assert((reps0 + evs) + o2.1 =~= reps0 + (evs + o2.1));
                            },
                            Err(e) => {},
                        }
                    }
                    i += 1;
                },
                Err(err) => {
                    tokens.truncate(state.0);
                    let hard = ret_err(err, opt_error);
                    proof {
                        assert(tokens@ =~= toks0);
                        assert(hard == pick_err(err, prev_opt));
                    }
                    return Err(hard);
                },
            }
        }
        proof {
            assert(self.args@.skip(i as int) =~= Seq::<Rule>::empty());
            match fin {
                Ok(o) => {
                    assert(reps + Seq::<(Range, DataRep)>::empty() =~= reps);
                },
                Err(e) => {},
            }
        }
        Ok((Range::new(offset, off - offset), st, opt_error))
    }
}

} // verus!
