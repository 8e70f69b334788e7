//! The line-oriented repetition rule.

use vstd::prelude::*;
use crate::MetaData;
use crate::DebugId;
use crate::balance::balanced;
use crate::balance::lemma_extend;
use crate::balance::lemma_no_events;
use crate::balance::lemma_prefix_trans;
use crate::balance::lemma_skip_append;
use crate::diagnostics::err_update;
use crate::diagnostics::ret_err;
use crate::eval::DataRep;
use crate::eval::ends_with_newline;
use crate::eval::eval;
use crate::eval::eval_lines;
use crate::eval::events_match;
use crate::eval::lemma_events_match_concat;
use crate::eval::line_ws_run;
use crate::eval::matches_eval;
use crate::eval::merge_soft;
use crate::eval::pick_err;
use crate::parse_error::ParseError;
use crate::range::Range;
use crate::rule::ParseResult;
use crate::rule::Rule;
use crate::rule::parse_post;
use crate::rule::rule_size;
use crate::rule::soft_fits;
use crate::scanner::is_whitespace_char;
use crate::tokenizer::TokenizerState;

verus! {

/// Stores information about lines.
#[derive(Debug, PartialEq)]
pub struct Lines {
    /// The rule to read lines with. This can be a multi-line rule.
    pub rule: Box<Rule>,
    /// A debug id to track down the rule generating an error.
    pub debug_id: DebugId,
}

/// True when the characters in `[start, end)` end with a newline,
/// possibly followed by whitespace that holds no further newline.
fn ended_with_newline(chars: &[char], start: usize, end: usize) -> (r: bool)
    requires
        start <= end <= chars@.len(),
    ensures
        r == ends_with_newline(chars@, start as int, end as int),
        r ==> start < end,
{
    let mut k = end;
    while k > start && chars[k - 1] != '\n' && is_whitespace_char(chars[k - 1])
        invariant
            start <= k <= end <= chars@.len(),
            ends_with_newline(chars@, start as int, end as int) == ends_with_newline(
                chars@,
                start as int,
                k as int,
            ),
        decreases k,
    {
        k -= 1;
    }
    k > start && chars[k - 1] == '\n'
}

impl Lines {
    /// Parses a rule repeatedly, one line at a time. Lines that contain
    /// only whitespace are skipped without invoking the rule, which is
    /// invoked at the start of each non-blank line. The rule may itself
    /// span several lines; when its match does not end with a newline,
    /// the next non-blank content must stand on a new line, otherwise the
    /// whole call fails with an expected-new-line error and rolls the
    /// buffer back. The rule's final, expected failure ends the loop and
    /// is folded into the soft diagnostic trail. The result is exactly
    /// what the evaluator's specification gives.
    #[verifier::loop_isolation(false)]
    pub fn parse(
        &self,
        tokens: &mut Vec<(Range, MetaData)>,
        state: &TokenizerState,
        chars: &[char],
        offset: usize,
        refs: &[(String, Rule)],
        fuel: usize,
    ) -> (r: ParseResult)
        requires
            state.0 == old(tokens)@.len(),
            offset <= chars@.len(),
            chars@.len() <= usize::MAX,
        ensures
            parse_post(old(tokens)@, final(tokens)@, r, offset as int, chars@.len() as int),
            matches_eval(
                old(tokens)@,
                final(tokens)@,
                r,
                eval_lines(
                    *self.rule,
                    chars@,
                    offset as int,
                    refs@,
                    fuel as nat,
                    self.debug_id,
                    true,
                    None,
                ),
                offset as int,
            ),
        decreases fuel, rule_size(*self.rule), 1int,
    {
        let ghost toks0 = old(tokens)@;
        let ghost fin = eval_lines(
            *self.rule,
            chars@,
            offset as int,
            refs@,
            fuel as nat,
            self.debug_id,
            true,
            None,
        );
        let mut off: usize = offset;
        let mut st: TokenizerState = *state;
        let mut opt_error: Option<(Range, ParseError)> = None;
        let mut new_lines: bool = true;
        let ghost mut reps: Seq<(Range, DataRep)> = Seq::empty();
        proof {
            lemma_no_events(toks0);
            match fin {
                Ok(o) => {
                    assert(Seq::<(Range, DataRep)>::empty() + o.1 =~= o.1);
                },
                Err(e) => {},
            }
        }
        loop
            invariant
                state.0 == toks0.len(),
                st.0 == tokens@.len(),
                toks0.is_prefix_of(tokens@),
                balanced(tokens@.skip(toks0.len() as int)),
                offset <= off <= chars@.len(),
                chars@.len() <= usize::MAX,
                soft_fits(opt_error, chars@.len() as int),
                events_match(tokens@.skip(toks0.len() as int), reps),
                match eval_lines(
                    *self.rule,
                    chars@,
                    off as int,
                    refs@,
                    fuel as nat,
                    self.debug_id,
                    new_lines,
                    opt_error,
                ) {
                    Ok(o) => fin == Ok::<_, (Range, ParseError)>(
                        ((off - offset) + o.0, reps + o.1, o.2),
                    ),
                    Err(e) => fin == Err::<(int, Seq<(Range, DataRep)>, Option<(Range, ParseError)>), _>(
                        e,
                    ),
                },
            decreases chars@.len() - off, if new_lines {
                1int
            } else {
                0int
            },
        {
            // The run of whitespace before the line's content or its end.
            let mut len: usize = 0;
            while off + len < chars.len() && chars[off + len] != '\n' && is_whitespace_char(
                chars[off + len],
            )
                invariant
                    off + len <= chars@.len(),
                    line_ws_run(chars@, off as int) == len + line_ws_run(chars@, off + len),
                decreases chars@.len() - off - len,
            {
                len += 1;
            }
            proof {
                assert(line_ws_run(chars@, off + len) == 0);
                assert(line_ws_run(chars@, off as int) == len);
            }
            if off + len >= chars.len() {
                // Only trailing whitespace is left.
                off = off + len;
                proof {
                    assert(reps + Seq::<(Range, DataRep)>::empty() =~= reps);
                }
                return Ok((Range::new(offset, off - offset), st, opt_error));
            } else if chars[off + len] == '\n' {
                // A line that holds only whitespace is skipped.
                off = off + len + 1;
                new_lines = true;
            } else if new_lines {
                let ghost mid = tokens@;
                let ghost prev_opt = opt_error;
                let ghost sub = eval(*self.rule, chars@, off as int, refs@, fuel as nat);
                match self.rule.parse(tokens, &st, chars, off, refs, fuel) {
                    Err(err) => {
                        err_update(Some(err), &mut opt_error);
                        proof {
                            assert(opt_error == merge_soft(Some(err), prev_opt));
                            assert(reps + Seq::<(Range, DataRep)>::empty() =~= reps);
                        }
                        return Ok((Range::new(offset, off - offset), st, opt_error));
                    },
                    Ok((range, new_st, err)) => {
                        proof {
                            lemma_prefix_trans(toks0, mid, tokens@);
                            lemma_extend(mid, tokens@, toks0.len() as int);
                        }
                        st = new_st;
                        err_update(err, &mut opt_error);
                        let ghost reps0 = reps;
                        proof {
                            let (len_r, evs, soft) = sub->Ok_0;
                            let rest = tokens@.skip(mid.len() as int);
                            assert(mid =~= tokens@.subrange(0, mid.len() as int));
                            assert(tokens@ =~= mid + rest);
                            lemma_skip_append(mid, rest, toks0.len() as int);
                            lemma_events_match_concat(
                                mid.skip(toks0.len() as int),
                                reps0,
                                rest,
                                evs,
                            );
                            reps = reps0 + evs;
                            assert(opt_error == merge_soft(soft, prev_opt));
                        }
                        let end = range.next_offset();
                        let nl2 = ended_with_newline(chars, off, end);
                        proof {
                            let (len_r, evs, soft) = sub->Ok_0;
                            let rec = eval_lines(
                                *self.rule,
                                chars@,
                                off + len_r,
                                refs@,
                                fuel as nat,
                                self.debug_id,
                                ends_with_newline(chars@, off as int, off + len_r),
                                opt_error,
                            );
                            match rec {
                                Ok(o2) => {
                                    assert((reps0 + evs) + o2.1 =~= reps0 + (evs + o2.1));
                                },
                                Err(e) => {},
                            }
                        }
                        new_lines = nl2;
                        off = end;
                    },
                }
            } else {
                // Content follows a match that did not end its line.
                tokens.truncate(state.0);
                let hard = ret_err(
                    (Range::new(off, 0), ParseError::ExpectedNewLine(self.debug_id)),
                    opt_error,
                );
                proof {
                    assert(tokens@ =~= toks0);
                    assert(hard == pick_err(
                        (Range { offset: off, length: 0 }, ParseError::ExpectedNewLine(self.debug_id)),
                        opt_error,
                    ));
                }
                return Err(hard);
            }
        }
    }
}

} // verus!
