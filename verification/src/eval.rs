//! The evaluator's specification: a recursive definition of what parsing
//! each rule returns — the consumed length, the emitted events and the
//! kept diagnostic on success, or the reported error on failure — which
//! the executable rules are proved against.
//!
//! String-valued event payloads are built at run time out of characters,
//! so an emitted event is described here by `DataRep`: either the exact
//! event value, or a string event given by its name and the character
//! sequence of its payload.

use vstd::prelude::*;
use crate::MetaData;
use crate::DebugId;
use crate::parse_error::ParseError;
use crate::range::Range;
use crate::rule::Rule;
use crate::rule::rule_size;
use crate::rule::rules_size;
use crate::scanner::is_space;
use crate::scanner::number_token_len;
use crate::scanner::number_value_bits;
use crate::scanner::string_token_len;
use crate::scanner::string_value;
use crate::scanner::text_matches_at;

verus! {

/// Describes one emitted event: the exact value, or a string event by its
/// name and the character sequence of its payload.
pub enum DataRep {
    /// The event value itself.
    Exact(MetaData),
    /// A string event, by name and payload characters.
    StringData(String, Seq<char>),
}

/// What evaluating a rule yields: the consumed length, the emitted events
/// and the kept soft diagnostic, or the reported error.
pub type EvalResult = Result<
    (int, Seq<(Range, DataRep)>, Option<(Range, ParseError)>),
    (Range, ParseError),
>;

/// A range built from mathematical offsets.
pub open spec fn range_at(offset: int, length: int) -> Range {
    Range { offset: offset as usize, length: length as usize }
}

/// The furthest-progress merge of a new candidate into the recorded one:
/// what `err_update` keeps.
pub open spec fn merge_soft(
    new: Option<(Range, ParseError)>,
    prev: Option<(Range, ParseError)>,
) -> Option<(Range, ParseError)> {
    match (new, prev) {
        (Some(n), Some(p)) => if n.0.end() > p.0.end() {
            Some(n)
        } else {
            Some(p)
        },
        (Some(n), None) => Some(n),
        (None, p) => p,
    }
}

/// The furthest-progress choice between a hard error and the recorded
/// candidate: what `ret_err` returns.
pub open spec fn pick_err(e: (Range, ParseError), prev: Option<(Range, ParseError)>) -> (
    Range,
    ParseError,
) {
    match prev {
        Some(p) => if p.0.end() >= e.0.end() {
            p
        } else {
            e
        },
        None => e,
    }
}

/// The maximal run of whitespace at a position.
pub open spec fn space_run(chars: Seq<char>, offset: int) -> nat
    decreases chars.len() - offset,
{
    if 0 <= offset < chars.len() && is_space(chars[offset]) {
        1 + space_run(chars, offset + 1)
    } else {
        0
    }
}

/// The run of characters before the first stop character or whitespace.
pub open spec fn until_run(any: Seq<char>, chars: Seq<char>, offset: int) -> nat
    decreases chars.len() - offset,
{
    if 0 <= offset < chars.len() && !is_space(chars[offset]) && !any.contains(chars[offset]) {
        1 + until_run(any, chars, offset + 1)
    } else {
        0
    }
}

/// The run of whitespace other than newlines at a position.
pub open spec fn line_ws_run(chars: Seq<char>, offset: int) -> nat
    decreases chars.len() - offset,
{
    if 0 <= offset < chars.len() && chars[offset] != '\n' && is_space(chars[offset]) {
        1 + line_ws_run(chars, offset + 1)
    } else {
        0
    }
}

/// True when the characters in `[start, end)` end with a newline,
/// possibly followed by whitespace that holds no further newline.
pub open spec fn ends_with_newline(chars: Seq<char>, start: int, end: int) -> bool
    decreases end - start,
{
    if end <= start {
        false
    } else if chars[end - 1] == '\n' {
        true
    } else if is_space(chars[end - 1]) {
        ends_with_newline(chars, start, end - 1)
    } else {
        false
    }
}

/// What evaluating one rule returns.
pub open spec fn eval(
    r: Rule,
    chars: Seq<char>,
    offset: int,
    refs: Seq<(String, Rule)>,
    fuel: nat,
) -> EvalResult
    decreases fuel, rule_size(r), 0int, 0int,
{
    match r {
        Rule::Whitespace(w) => {
            let n = space_run(chars, offset);
            if n == 0 && !w.optional {
                Err((range_at(offset, 0), ParseError::ExpectedWhitespace(w.debug_id)))
            } else {
                Ok((n as int, Seq::empty(), None))
            }
        },
        Rule::Token(t) => {
            let matched = text_matches_at(t.text@, chars, offset);
            if matched == t.not {
                if matched {
                    Err(
                        (
                            range_at(offset, t.text@.len() as int),
                            ParseError::DidNotExpectToken(t.text, t.debug_id),
                        ),
                    )
                } else {
                    Err((range_at(offset, 0), ParseError::ExpectedToken(t.text, t.debug_id)))
                }
            } else {
                let len: int = if matched {
                    t.text@.len() as int
                } else {
                    0
                };
                match t.property {
                    Some(name) => Ok(
                        (
                            len,
                            seq![
                                (
                                    range_at(offset, len),
                                    DataRep::Exact(
                                        MetaData::Bool(
                                            name,
                                            if matched {
                                                !t.inverted
                                            } else {
                                                t.inverted
                                            },
                                        ),
                                    ),
                                ),
                            ],
                            None,
                        ),
                    ),
                    None => Ok((len, Seq::empty(), None)),
                }
            }
        },
        Rule::UntilAnyOrWhitespace(u) => {
            let n = until_run(u.any_characters@, chars, offset);
            if n == 0 && !u.optional {
                Err((range_at(offset, 0), ParseError::ExpectedSomething(u.debug_id)))
            } else {
                match u.property {
                    Some(name) => Ok(
                        (
                            n as int,
                            seq![
                                (
                                    range_at(offset, n as int),
                                    DataRep::StringData(
                                        name,
                                        chars.subrange(offset, offset + n),
                                    ),
                                ),
                            ],
                            None,
                        ),
                    ),
                    None => Ok((n as int, Seq::empty(), None)),
                }
            }
        },
        Rule::Text(t) => {
            match string_token_len(chars.skip(offset)) {
                None => Err((range_at(offset, 0), ParseError::ExpectedText(t.debug_id))),
                Some(n) => {
                    if n < 2 {
                        Err((range_at(offset, n), ParseError::ExpectedText(t.debug_id)))
                    } else {
                        match string_value(chars.subrange(offset, offset + n)) {
                            None => Err(
                                (range_at(offset, n), ParseError::ExpectedText(t.debug_id)),
                            ),
                            Some(v) => {
                                if !t.allow_empty && v.len() == 0 {
                                    Err(
                                        (
                                            range_at(offset, n),
                                            ParseError::ExpectedText(t.debug_id),
                                        ),
                                    )
                                } else {
                                    match t.property {
                                        Some(name) => Ok(
                                            (
                                                n,
                                                seq![
                                                    (
                                                        range_at(offset, n),
                                                        DataRep::StringData(name, v),
                                                    ),
                                                ],
                                                None,
                                            ),
                                        ),
                                        None => Ok((n as int, Seq::empty(), None)),
                                    }
                                }
                            },
                        }
                    }
                },
            }
        },
        Rule::Number(nr) => {
            match number_token_len(nr.allow_underscore, chars.skip(offset)) {
                None => Err((range_at(offset, 0), ParseError::ExpectedNumber(nr.debug_id))),
                Some(n) => {
                    match number_value_bits(
                        nr.allow_underscore,
                        chars.subrange(offset, offset + n),
                    ) {
                        None => Err(
                            (range_at(offset, n), ParseError::ParseNumberError(nr.debug_id)),
                        ),
                        Some(b) => match nr.property {
                            Some(name) => Ok(
                                (
                                    n,
                                    seq![
                                        (
                                            range_at(offset, n),
                                            DataRep::Exact(MetaData::F64(name, b)),
                                        ),
                                    ],
                                    None,
                                ),
                            ),
                            None => Ok((n as int, Seq::empty(), None)),
                        },
                    }
                },
            }
        },
        Rule::Sequence(s) => eval_rules(s.args@, chars, offset, refs, fuel, None),
        Rule::Select(s) => eval_select(s.args@, chars, offset, refs, fuel, None, s.debug_id),
        Rule::Optional(o) => {
            match eval_rules(o.args@, chars, offset, refs, fuel, None) {
                Ok(x) => Ok(x),
                Err(e) => Ok((0, Seq::empty(), Some(e))),
            }
        },
        Rule::Repeat(rp) => eval_repeat(*rp.rule, chars, offset, refs, fuel, rp.optional, true, None),
        Rule::Lines(l) => eval_lines(*l.rule, chars, offset, refs, fuel, l.debug_id, true, None),
        Rule::Node(n) => eval_node(n, chars, offset, refs, fuel),
    }
}

/// What running rules in order returns: every rule must succeed over the
/// advancing cursor; the consumed lengths add, the events concatenate,
/// and diagnostics merge by furthest progress into the accumulated one.
pub open spec fn eval_rules(
    args: Seq<Rule>,
    chars: Seq<char>,
    offset: int,
    refs: Seq<(String, Rule)>,
    fuel: nat,
    acc: Option<(Range, ParseError)>,
) -> EvalResult
    decreases fuel, rules_size(args), 1int, 0int,
{
    if args.len() == 0 {
        Ok((0, Seq::empty(), acc))
    } else {
        match eval(args[0], chars, offset, refs, fuel) {
            Err(e) => Err(pick_err(e, acc)),
            Ok((len, evs, soft)) => {
                match eval_rules(
                    args.drop_first(),
                    chars,
                    offset + len,
                    refs,
                    fuel,
                    merge_soft(soft, acc),
                ) {
                    Ok((len2, evs2, soft2)) => Ok((len + len2, evs + evs2, soft2)),
                    Err(e) => Err(e),
                }
            },
        }
    }
}

/// What trying alternatives in order returns: the first success wins,
/// keeping the furthest diagnostic among the failed prior alternatives;
/// when every alternative fails, the furthest-progress error.
pub open spec fn eval_select(
    args: Seq<Rule>,
    chars: Seq<char>,
    offset: int,
    refs: Seq<(String, Rule)>,
    fuel: nat,
    acc: Option<(Range, ParseError)>,
    debug_id: DebugId,
) -> EvalResult
    decreases fuel, rules_size(args), 1int, 0int,
{
    if args.len() == 0 {
        match acc {
            Some(e) => Err(e),
            None => Err((range_at(offset, 0), ParseError::ExpectedSomething(debug_id))),
        }
    } else {
        match eval(args[0], chars, offset, refs, fuel) {
            Ok((len, evs, soft)) => Ok((len, evs, merge_soft(soft, acc))),
            Err(e) => eval_select(
                args.drop_first(),
                chars,
                offset,
                refs,
                fuel,
                merge_soft(Some(e), acc),
                debug_id,
            ),
        }
    }
}

/// What repeating a rule returns: iterate while the rule succeeds and
/// advances; the terminating failure is folded into the diagnostic trail,
/// unless the very first attempt fails and one iteration is required.
pub open spec fn eval_repeat(
    rule: Rule,
    chars: Seq<char>,
    offset: int,
    refs: Seq<(String, Rule)>,
    fuel: nat,
    optional: bool,
    first: bool,
    acc: Option<(Range, ParseError)>,
) -> EvalResult
    decreases fuel, rule_size(rule), 2int, chars.len() - offset,
{
    match eval(rule, chars, offset, refs, fuel) {
        Err(e) => {
            if first && !optional {
                Err(pick_err(e, acc))
            } else {
                Ok((0, Seq::empty(), merge_soft(Some(e), acc)))
            }
        },
        Ok((len, evs, soft)) => {
            let acc2 = merge_soft(soft, acc);
            if len <= 0 || offset + len > chars.len() {
                Ok((if len <= 0 {
                    0
                } else {
                    len
                }, evs, acc2))
            } else {
                match eval_repeat(rule, chars, offset + len, refs, fuel, optional, false, acc2) {
                    Ok((len2, evs2, soft2)) => Ok((len + len2, evs + evs2, soft2)),
                    Err(e) => Err(e),
                }
            }
        },
    }
}

/// What parsing line by line returns: whitespace-only lines are consumed
/// without invoking the rule; the rule runs at the start of each other
/// line, as long as the previous match ended its line; its terminating
/// failure is folded into the diagnostic trail, and content following a
/// match that did not end its line is the hard expected-new-line error.
pub open spec fn eval_lines(
    rule: Rule,
    chars: Seq<char>,
    offset: int,
    refs: Seq<(String, Rule)>,
    fuel: nat,
    debug_id: DebugId,
    new_lines: bool,
    acc: Option<(Range, ParseError)>,
) -> EvalResult
    decreases fuel, rule_size(rule), 2int, 2 * (chars.len() - offset) + (if new_lines {
        1int
    } else {
        0int
    }),
{
    let len = line_ws_run(chars, offset);
    if offset + len >= chars.len() {
        Ok((len as int, Seq::empty(), acc))
    } else if chars[offset + len] == '\n' {
        match eval_lines(rule, chars, offset + len + 1, refs, fuel, debug_id, true, acc) {
            Ok((len2, evs2, soft2)) => Ok((len + 1 + len2, evs2, soft2)),
            Err(e) => Err(e),
        }
    } else if new_lines {
        match eval(rule, chars, offset, refs, fuel) {
            Err(e) => Ok((0, Seq::empty(), merge_soft(Some(e), acc))),
            Ok((len_r, evs, soft)) => {
                let acc2 = merge_soft(soft, acc);
                if len_r <= 0 && !ends_with_newline(chars, offset, offset + len_r) {
                    match eval_lines(rule, chars, offset, refs, fuel, debug_id, false, acc2) {
                        Ok((len2, evs2, soft2)) => Ok((len_r + len2, evs + evs2, soft2)),
                        Err(e) => Err(e),
                    }
                } else if len_r <= 0 || offset + len_r > chars.len() {
                    Ok((len_r, evs, acc2))
                } else {
                    match eval_lines(
                        rule,
                        chars,
                        offset + len_r,
                        refs,
                        fuel,
                        debug_id,
                        ends_with_newline(chars, offset, offset + len_r),
                        acc2,
                    ) {
                        Ok((len2, evs2, soft2)) => Ok((len_r + len2, evs + evs2, soft2)),
                        Err(e) => Err(e),
                    }
                }
            },
        }
    } else {
        Err(pick_err((range_at(offset, 0), ParseError::ExpectedNewLine(debug_id)), acc))
    }
}

/// What a node reference returns: the referenced rule's result, the
/// events bracketed by start and end node events when a property is
/// bound; an invalid-rule error when the node is unlinked, out of bounds
/// or out of fuel.
pub open spec fn eval_node(
    n: crate::node::Node,
    chars: Seq<char>,
    offset: int,
    refs: Seq<(String, Rule)>,
    fuel: nat,
) -> EvalResult
    decreases fuel, 0int, 1int, 0int,
{
    match n.index {
        None => Err((range_at(offset, 0), ParseError::InvalidRule(n.debug_id))),
        Some(i) => {
            if i >= refs.len() || fuel == 0 {
                Err((range_at(offset, 0), ParseError::InvalidRule(n.debug_id)))
            } else {
                match eval(refs[i as int].1, chars, offset, refs, (fuel - 1) as nat) {
                    Err(e) => Err(e),
                    Ok((len, evs, soft)) => match n.property {
                        Some(prop) => Ok(
                            (
                                len,
                                seq![
                                    (
                                        range_at(offset, 0),
                                        DataRep::Exact(MetaData::StartNode(prop)),
                                    ),
                                ] + evs + seq![
                                    (
                                        range_at(offset, len),
                                        DataRep::Exact(MetaData::EndNode(prop)),
                                    ),
                                ],
                                soft,
                            ),
                        ),
                        None => Ok((len, evs, soft)),
                    },
                }
            }
        },
    }
}

/// True when an emitted event is the one a `DataRep` describes.
pub open spec fn data_matches(d: MetaData, rep: DataRep) -> bool {
    match rep {
        DataRep::Exact(m) => d == m,
        DataRep::StringData(name, payload) => match d {
            MetaData::String(nm, v) => nm == name && v@ == payload,
            _ => false,
        },
    }
}

/// True when the emitted events are exactly those the representation
/// describes, ranges included.
pub open spec fn events_match(evs: Seq<(Range, MetaData)>, reps: Seq<(Range, DataRep)>) -> bool {
    &&& evs.len() == reps.len()
    &&& forall|i: int|
        0 <= i < evs.len() ==> (#[trigger] evs[i]).0 == reps[i].0 && data_matches(
            evs[i].1,
            reps[i].1,
        )
}

/// True when an executable parse result is the one the evaluator's
/// specification gives: same success or failure, same error, same
/// consumed length, same kept diagnostic, and the appended events are
/// exactly the specified emission.
pub open spec fn matches_eval(
    old_toks: Seq<(Range, MetaData)>,
    toks: Seq<(Range, MetaData)>,
    r: crate::rule::ParseResult,
    ev: EvalResult,
    offset: int,
) -> bool {
    match (r, ev) {
        (Ok((range, st, opt)), Ok((len, reps, soft))) => {
            &&& range.length == len
            &&& events_match(toks.skip(old_toks.len() as int), reps)
            &&& opt == soft
        },
        (Err(e1), Err(e2)) => e1 == e2,
        _ => false,
    }
}

/// Empty emissions match.
pub proof fn lemma_events_match_empty(toks: Seq<(Range, MetaData)>)
    ensures
        events_match(toks.skip(toks.len() as int), Seq::<(Range, DataRep)>::empty()),
{
    assert(toks.skip(toks.len() as int) =~= Seq::<(Range, MetaData)>::empty());
}

/// Matching emissions concatenate.
pub proof fn lemma_events_match_concat(
    e1: Seq<(Range, MetaData)>,
    r1: Seq<(Range, DataRep)>,
    e2: Seq<(Range, MetaData)>,
    r2: Seq<(Range, DataRep)>,
)
    requires
        events_match(e1, r1),
        events_match(e2, r2),
    ensures
        events_match(e1 + e2, r1 + r2),
{
    assert forall|i: int| 0 <= i < (e1 + e2).len() implies ((#[trigger] (e1 + e2)[i]).0 == (r1
        + r2)[i].0 && data_matches((e1 + e2)[i].1, (r1 + r2)[i].1)) by {
        if i < e1.len() {
            assert(e1[i].0 == r1[i].0 && data_matches(e1[i].1, r1[i].1));
        } else {
            assert(e2[i - e1.len()].0 == r2[i - e1.len()].0 && data_matches(
                e2[i - e1.len()].1,
                r2[i - e1.len()].1,
            ));
        }
    }
}

/// A single pushed event matches a single representation.
pub proof fn lemma_events_match_push(
    toks: Seq<(Range, MetaData)>,
    ev: (Range, MetaData),
    rep: (Range, DataRep),
)
    requires
        ev.0 == rep.0,
        data_matches(ev.1, rep.1),
    ensures
        events_match(toks.push(ev).skip(toks.len() as int), seq![rep]),
{
    assert(toks.push(ev).skip(toks.len() as int) =~= seq![ev]);
}

/// `space_run` is pinned by the maximal-run characterization the scanner
/// returns.
pub proof fn lemma_space_run(chars: Seq<char>, offset: int, n: int)
    requires
        0 <= offset,
        0 <= n,
        offset + n <= chars.len(),
        forall|i: int| offset <= i < offset + n ==> is_space(#[trigger] chars[i]),
        offset + n < chars.len() ==> !is_space(chars[offset + n]),
    ensures
        space_run(chars, offset) == n,
    decreases n,
{
    if n > 0 {
        lemma_space_run(chars, offset + 1, n - 1);
    }
}

/// `until_run` is pinned by the characterization the scanner returns.
pub proof fn lemma_until_run(any: Seq<char>, chars: Seq<char>, offset: int, n: int)
    requires
        0 <= offset,
        0 <= n,
        offset + n <= chars.len(),
        forall|i: int|
            offset <= i < offset + n ==> !is_space(#[trigger] chars[i]) && !any.contains(chars[i]),
        offset + n < chars.len() ==> (is_space(chars[offset + n]) || any.contains(
            chars[offset + n],
        )),
    ensures
        until_run(any, chars, offset) == n,
    decreases n,
{
    if n > 0 {
        lemma_until_run(any, chars, offset + 1, n - 1);
    }
}

} // verus!
