//! Balance of structural events.
//!
//! `StartNode` and `EndNode` events emitted by a successful rule are
//! always balanced and properly nested in emission order: reading the
//! stream left to right, the nesting depth never drops below zero and
//! ends at zero. This module states that notion and proves the closure
//! laws the evaluator's contracts rest on.

use vstd::prelude::*;
use crate::MetaData;
use crate::range::Range;

verus! {

/// The change of nesting depth that one event causes.
pub open spec fn event_delta(e: MetaData) -> int {
    match e {
        MetaData::StartNode(_) => 1,
        MetaData::EndNode(_) => -1,
        _ => 0,
    }
}

/// The total change of nesting depth over an event stream.
pub open spec fn delta_sum(s: Seq<(Range, MetaData)>) -> int
    decreases s.len(),
{
    if s.len() == 0 {
        0
    } else {
        event_delta(s[0].1) + delta_sum(s.drop_first())
    }
}

/// The lowest nesting depth reached over all prefixes of an event stream,
/// starting from depth zero. Never positive.
pub open spec fn delta_low(s: Seq<(Range, MetaData)>) -> int
    decreases s.len(),
{
    if s.len() == 0 {
        0
    } else {
        let rest = event_delta(s[0].1) + delta_low(s.drop_first());
        if rest < 0 {
            rest
        } else {
            0
        }
    }
}

/// An event stream is balanced when its nesting depth never drops below
/// zero and ends at zero.
pub open spec fn balanced(s: Seq<(Range, MetaData)>) -> bool {
    delta_sum(s) == 0 && delta_low(s) >= 0
}

/// Depth changes and lowest depths distribute over concatenation.
pub proof fn lemma_delta_concat(a: Seq<(Range, MetaData)>, b: Seq<(Range, MetaData)>)
    ensures
        delta_sum(a + b) == delta_sum(a) + delta_sum(b),
        delta_low(a + b) == if delta_low(a) <= delta_sum(a) + delta_low(b) {
            delta_low(a)
        } else {
            delta_sum(a) + delta_low(b)
        },
    decreases a.len(),
{
    if a.len() == 0 {
        assert(a + b =~= b);
    } else {
        lemma_delta_concat(a.drop_first(), b);
        assert((a + b).drop_first() =~= a.drop_first() + b);
    }
}

/// Two balanced streams concatenate to a balanced stream.
pub proof fn lemma_balanced_concat(a: Seq<(Range, MetaData)>, b: Seq<(Range, MetaData)>)
    requires
        balanced(a),
        balanced(b),
    ensures
        balanced(a + b),
{
    lemma_delta_concat(a, b);
}

/// A stream of one non-structural event is balanced.
pub proof fn lemma_balanced_single(e: (Range, MetaData))
    requires
        event_delta(e.1) == 0,
    ensures
        balanced(seq![e]),
{
    assert(seq![e].drop_first() =~= Seq::<(Range, MetaData)>::empty());
    assert(delta_sum(Seq::<(Range, MetaData)>::empty()) == 0);
    assert(delta_low(Seq::<(Range, MetaData)>::empty()) == 0);
    assert(seq![e][0] == e);
}

/// A balanced stream wrapped in a start and an end event is balanced.
pub proof fn lemma_balanced_wrap(
    start: (Range, MetaData),
    m: Seq<(Range, MetaData)>,
    end: (Range, MetaData),
)
    requires
        event_delta(start.1) == 1,
        event_delta(end.1) == -1,
        balanced(m),
    ensures
        balanced(seq![start] + m + seq![end]),
{
    assert(seq![start].drop_first() =~= Seq::<(Range, MetaData)>::empty());
    assert(seq![end].drop_first() =~= Seq::<(Range, MetaData)>::empty());
    assert(delta_sum(Seq::<(Range, MetaData)>::empty()) == 0);
    assert(delta_low(Seq::<(Range, MetaData)>::empty()) == 0);
    assert(seq![start][0] == start);
    assert(seq![end][0] == end);
    assert(delta_sum(seq![start]) == 1 && delta_low(seq![start]) == 0);
    assert(delta_sum(seq![end]) == -1 && delta_low(seq![end]) == -1);
    lemma_delta_concat(seq![start], m);
    lemma_delta_concat(seq![start] + m, seq![end]);
}

/// A buffer left unchanged appends a balanced (empty) stream.
pub proof fn lemma_no_events(t: Seq<(Range, MetaData)>)
    ensures
        t.is_prefix_of(t),
        balanced(t.skip(t.len() as int)),
{
    assert(t.subrange(0, t.len() as int) =~= t);
    assert(t.skip(t.len() as int) =~= Seq::<(Range, MetaData)>::empty());
}

/// Pushing one non-structural event appends a balanced stream.
pub proof fn lemma_push_balanced(t: Seq<(Range, MetaData)>, ev: (Range, MetaData))
    requires
        event_delta(ev.1) == 0,
    ensures
        t.is_prefix_of(t.push(ev)),
        balanced(t.push(ev).skip(t.len() as int)),
{
    assert(t.push(ev).subrange(0, t.len() as int) =~= t);
    assert(t.push(ev).skip(t.len() as int) =~= seq![ev]);
    lemma_balanced_single(ev);
}

/// Skipping the shared prefix of a stream and its extension leaves the
/// appended part.
pub proof fn lemma_skip_append(a: Seq<(Range, MetaData)>, b: Seq<(Range, MetaData)>, n: int)
    requires
        0 <= n <= a.len(),
    ensures
        (a + b).skip(n) == a.skip(n) + b,
{
    assert((a + b).skip(n) =~= a.skip(n) + b);
}

/// Prefixes compose.
pub proof fn lemma_prefix_trans(
    a: Seq<(Range, MetaData)>,
    b: Seq<(Range, MetaData)>,
    c: Seq<(Range, MetaData)>,
)
    requires
        a.is_prefix_of(b),
        b.is_prefix_of(c),
    ensures
        a.is_prefix_of(c),
{
    assert(a =~= c.subrange(0, a.len() as int));
}

/// Extending a buffer whose appended part is balanced by a call that
/// appends a balanced stream keeps the whole appended part balanced.
pub proof fn lemma_extend(
    prev: Seq<(Range, MetaData)>,
    cur: Seq<(Range, MetaData)>,
    chk: int,
)
    requires
        0 <= chk <= prev.len(),
        prev.is_prefix_of(cur),
        balanced(prev.skip(chk)),
        balanced(cur.skip(prev.len() as int)),
    ensures
        balanced(cur.skip(chk)),
{
    let rest = cur.skip(prev.len() as int);
    assert(cur =~= prev + rest);
    lemma_skip_append(prev, rest, chk);
    lemma_balanced_concat(prev.skip(chk), rest);
    assert(cur.skip(chk) =~= (prev + rest).skip(chk));
}

/// Wrapping a call's balanced appended events in a start and an end event
/// appends a balanced stream overall.
pub proof fn lemma_wrap_events(
    t0: Seq<(Range, MetaData)>,
    t1: Seq<(Range, MetaData)>,
    t2: Seq<(Range, MetaData)>,
    t3: Seq<(Range, MetaData)>,
    s_ev: (Range, MetaData),
    e_ev: (Range, MetaData),
)
    requires
        t1 == t0.push(s_ev),
        t1.is_prefix_of(t2),
        balanced(t2.skip(t1.len() as int)),
        t3 == t2.push(e_ev),
        event_delta(s_ev.1) == 1,
        event_delta(e_ev.1) == -1,
    ensures
        t0.is_prefix_of(t3),
        balanced(t3.skip(t0.len() as int)),
        t3.skip(t0.len() as int) == seq![s_ev] + t2.skip(t1.len() as int) + seq![e_ev],
{
    let a = t2.skip(t1.len() as int);
    let m = seq![s_ev] + a + seq![e_ev];
    lemma_balanced_wrap(s_ev, a, e_ev);
    assert(t1 =~= t2.subrange(0, t1.len() as int));
    assert(t2 =~= t1 + a);
    assert(t3 =~= t0 + m);
    lemma_skip_append(t0, m, t0.len() as int);
    assert(t0.skip(t0.len() as int) =~= Seq::<(Range, MetaData)>::empty());
    assert(Seq::<(Range, MetaData)>::empty() + m =~= m);
    assert(t3.skip(t0.len() as int) == m);
    assert(t0 =~= t3.subrange(0, t0.len() as int));
}

} // verus!
