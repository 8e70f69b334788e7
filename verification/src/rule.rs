//! The common shape of every rule's parse result.

use vstd::prelude::*;
use crate::MetaData;
use crate::balance::balanced;
use crate::balance::lemma_no_events;
use crate::eval::eval;
use crate::eval::eval_rules;
use crate::eval::events_match;
use crate::eval::lemma_events_match_empty;
use crate::eval::lemma_events_match_push;
use crate::eval::lemma_space_run;
use crate::eval::lemma_until_run;
use crate::eval::matches_eval;
use crate::eval::range_at;
use crate::eval::DataRep;
use crate::lines::Lines;
use crate::node::Node;
use crate::number::Number;
use crate::optional::Optional;
use crate::parse_error::ParseError;
use crate::range::Range;
use crate::repeat::Repeat;
use crate::scanner::chars_of;
use crate::select::Select;
use crate::sequence::Sequence;
use crate::text::Text;
use crate::token::Token;
use crate::tokenizer::TokenizerState;
use crate::until_any_or_whitespace::UntilAnyOrWhitespace;
use crate::whitespace::Whitespace;

verus! {

/// A rule describes how some section of a document should be parsed.
#[derive(Debug, PartialEq)]
pub enum Rule {
    /// Read whitespace.
    Whitespace(Whitespace),
    /// Match against a literal token.
    Token(Token),
    /// Read until any stop character or whitespace.
    UntilAnyOrWhitespace(UntilAnyOrWhitespace),
    /// Read quoted text.
    Text(Text),
    /// Read a number.
    Number(Number),
    /// Run sub-rules in order; all must succeed.
    Sequence(Sequence),
    /// Select one of the sub-rules: the first that succeeds wins.
    Select(Select),
    /// Try sub-rules and succeed with an empty match if they fail.
    Optional(Optional),
    /// Repeat a rule until it fails.
    Repeat(Repeat),
    /// Repeat a rule one line at a time.
    Lines(Lines),
    /// Reference another rule in the collection by name.
    Node(Node),
}

/// The structural size of a rule, used as the evaluator's termination
/// measure alongside the node-reference fuel.
pub open spec fn rule_size(r: Rule) -> nat
    decreases r,
{
    match r {
        Rule::Sequence(s) => 1 + rules_size(s.args@),
        Rule::Select(s) => 1 + rules_size(s.args@),
        Rule::Optional(o) => 1 + rules_size(o.args@),
        Rule::Repeat(rp) => 1 + rule_size(*rp.rule),
        Rule::Lines(l) => 1 + rule_size(*l.rule),
        _ => 1,
    }
}

/// The structural size of a list of rules: each element counts one more
/// than its own size, so an element is always strictly smaller than the
/// list.
pub open spec fn rules_size(rs: Seq<Rule>) -> nat
    decreases rs,
{
    if rs.len() == 0 {
        0
    } else {
        1 + rule_size(rs[0]) + rules_size(rs.drop_first())
    }
}

/// An element of a rule list is strictly smaller than the list.
pub proof fn lemma_rules_size_elem(rs: Seq<Rule>, i: int)
    requires
        0 <= i < rs.len(),
    ensures
        rule_size(rs[i]) < rules_size(rs),
    decreases i,
{
    if i > 0 {
        lemma_rules_size_elem(rs.drop_first(), i - 1);
    }
}

/// What parsing one rule returns: on success, the matched range, the new
/// checkpoint, and an optional soft diagnostic (the furthest error an
/// abandoned attempt reached); on failure, the error and its range.
pub type ParseResult = Result<
    (Range, TokenizerState, Option<(Range, ParseError)>),
    (Range, ParseError),
>;

/// What every successful rule invocation guarantees: the event buffer is
/// only extended, the new checkpoint equals the buffer's length, the
/// appended events are balanced, and the matched range starts at the
/// cursor and stays inside the input.
pub open spec fn parse_ok_post(
    old_toks: Seq<(Range, MetaData)>,
    toks: Seq<(Range, MetaData)>,
    st: TokenizerState,
    range: Range,
    offset: int,
    n: int,
) -> bool {
    &&& old_toks.is_prefix_of(toks)
    &&& st.0 == toks.len()
    &&& range.offset == offset
    &&& range.end() <= n
    &&& balanced(toks.skip(old_toks.len() as int))
}

/// A soft diagnostic's range lies inside an input of `n` characters.
pub open spec fn soft_fits(opt: Option<(Range, ParseError)>, n: int) -> bool {
    opt matches Some(e) ==> e.0.end() <= n
}

/// What every rule invocation guarantees: on success `parse_ok_post`, and
/// on failure the event buffer is exactly as it was before the call (no
/// leaked events from an abandoned branch) and the error's range lies
/// inside the input.
pub open spec fn parse_post(
    old_toks: Seq<(Range, MetaData)>,
    toks: Seq<(Range, MetaData)>,
    r: ParseResult,
    offset: int,
    n: int,
) -> bool {
    match r {
        Ok((range, st, opt)) => parse_ok_post(old_toks, toks, st, range, offset, n) && soft_fits(
            opt,
            n,
        ),
        Err((rg, _)) => toks == old_toks && rg.end() <= n,
    }
}

impl Rule {
    /// Parses a rule: dispatches on the rule variant and drives matching,
    /// checkpointing and error propagation. The result is exactly what the
    /// evaluator's specification gives for the rule.
    pub fn parse(
        &self,
        tokens: &mut Vec<(Range, MetaData)>,
        state: &TokenizerState,
        chars: &[char],
        offset: usize,
        refs: &[(String, Rule)],
        fuel: usize,
    ) -> (r: ParseResult)
        requires
            state.0 == old(tokens)@.len(),
            offset <= chars@.len(),
            chars@.len() <= usize::MAX,
        ensures
            parse_post(old(tokens)@, final(tokens)@, r, offset as int, chars@.len() as int),
            matches_eval(
                old(tokens)@,
                final(tokens)@,
                r,
                eval(*self, chars@, offset as int, refs@, fuel as nat),
                offset as int,
            ),
        decreases fuel, rule_size(*self), 0int,
    {
        let ghost toks0 = old(tokens)@;
        match self {
            Rule::Whitespace(w) => {
                match w.parse(chars, offset) {
                    Ok(range) => {
                        proof {
                            lemma_no_events(toks0);
                            lemma_events_match_empty(toks0);
                            lemma_space_run(chars@, offset as int, range.length as int);
                        }
                        Ok((range, *state, None))
                    },
                    Err(e) => {
                        proof {
                            lemma_space_run(chars@, offset as int, 0);
                        }
                        Err(e)
                    },
                }
            },
            Rule::Token(t) => {
                let r = t.parse(tokens, state, chars, offset);
                proof {
                    if r is Ok {
                        if t.property is Some {
                            let rep = (r->Ok_0.0, DataRep::Exact(tokens@.last().1));
                            lemma_events_match_push(toks0, tokens@.last(), rep);
                        } else {
                            lemma_events_match_empty(toks0);
                        }
                    }
                }
                r
            },
            Rule::UntilAnyOrWhitespace(u) => {
                let r = u.parse(tokens, state, chars, offset);
                proof {
                    if r is Ok {
                        let range = r->Ok_0.0;
                        lemma_until_run(
                            u.any_characters@,
                            chars@,
                            offset as int,
                            range.length as int,
                        );
                        if u.property is Some {
                            let rep = (
                                range,
                                DataRep::StringData(
                                    u.property->Some_0,
                                    chars@.subrange(offset as int, range.end()),
                                ),
                            );
                            assert(tokens@ =~= toks0.push(tokens@.last()));
                            lemma_events_match_push(toks0, tokens@.last(), rep);
                        } else {
                            lemma_events_match_empty(toks0);
                        }
                    } else {
                        lemma_until_run(u.any_characters@, chars@, offset as int, 0);
                    }
                }
                r
            },
            Rule::Text(t) => {
                let r = t.parse(tokens, state, chars, offset);
                proof {
                    if r is Ok {
                        let range = r->Ok_0.0;
                        if t.property is Some {
                            let val = crate::scanner::string_value(
                                chars@.subrange(offset as int, range.end()),
                            );
                            let rep = (
                                range,
                                DataRep::StringData(t.property->Some_0, val->Some_0),
                            );
                            assert(tokens@ =~= toks0.push(tokens@.last()));
                            lemma_events_match_push(toks0, tokens@.last(), rep);
                        } else {
                            lemma_events_match_empty(toks0);
                        }
                    }
                }
                r
            },
            Rule::Number(n) => {
                let r = n.parse(tokens, state, chars, offset);
                proof {
                    if r is Ok {
                        if n.property is Some {
                            let rep = (r->Ok_0.0, DataRep::Exact(tokens@.last().1));
                            lemma_events_match_push(toks0, tokens@.last(), rep);
                        } else {
                            lemma_events_match_empty(toks0);
                        }
                    }
                }
                r
            },
            Rule::Sequence(s) => s.parse(tokens, state, chars, offset, refs, fuel),
            Rule::Select(s) => s.parse(tokens, state, chars, offset, refs, fuel),
            Rule::Optional(o) => {
                let out = o.parse(tokens, state, chars, offset, refs, fuel);
                proof {
                    if eval_rules(o.args@, chars@, offset as int, refs@, fuel as nat, None)
                        is Err {
                        lemma_events_match_empty(tokens@);
                    }
                }
                Ok(out)
            },
            Rule::Repeat(rp) => rp.parse(tokens, state, chars, offset, refs, fuel),
            Rule::Lines(l) => l.parse(tokens, state, chars, offset, refs, fuel),
            Rule::Node(nd) => nd.parse(tokens, state, chars, offset, refs, fuel),
        }
    }
}

/// How many extra node expansions the evaluator allows beyond one per
/// input character.
pub const BASE_FUEL: usize = 64;

/// Parses text with a linked rule collection, starting from the last rule
/// in the collection. On success the whole event buffer is returned, and
/// its structural events are balanced; on failure the furthest diagnostic
/// and its range. A chain of node references that re-enters rules more
/// than once per remaining input character (plus a fixed allowance) is
/// rejected with an invalid-rule error instead of recursing forever.
pub fn parse(rules: &[(String, Rule)], text: &str) -> (r: Result<
    Vec<(Range, MetaData)>,
    (Range, ParseError),
>)
    ensures
        match r {
            Ok(events) => balanced(events@),
            Err((rg, _)) => rg.end() <= text@.len(),
        },
        ({
            let f: nat = if text@.len() + BASE_FUEL <= usize::MAX {
                (text@.len() + BASE_FUEL) as nat
            } else {
                usize::MAX as nat
            };
            if rules@.len() == 0 {
                r matches Err((rg, e)) && rg.offset == 0 && rg.length == 0 && e
                    == ParseError::InvalidRule(0)
            } else {
                match (r, eval(rules@.last().1, text@, 0, rules@, f)) {
                    (Ok(events), Ok(o)) => events_match(events@, o.1),
                    (Err(e1), Err(e2)) => e1 == e2,
                    _ => false,
                }
            }
        }),
{
    let chars = chars_of(text);
    let n = chars.len();
    if rules.len() == 0 {
        return Err((Range::new(0, 0), ParseError::InvalidRule(0)));
    }
    let mut tokens: Vec<(Range, MetaData)> = Vec::new();
    let state = TokenizerState::new();
    let fuel = if n <= usize::MAX - BASE_FUEL {
        n + BASE_FUEL
    } else {
        usize::MAX
    };
    let start = rules.len() - 1;
    proof {
        assert(rules@[start as int] == rules@.last());
    }
    match rules[start].1.parse(&mut tokens, &state, &chars, 0, rules, fuel) {
        Ok(_) => {
            proof {
                assert(tokens@.skip(0) =~= tokens@);
            }
            Ok(tokens)
        },
        Err(e) => Err(e),
    }
}

} // verus!
