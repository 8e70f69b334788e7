//! The rule linker: resolves named node references into direct indices.
//!
//! Linking is order-independent (it supports forward, mutual and self
//! references), and unresolvable names are a link-time failure, never
//! deferred to parse time. It is run once per rule collection before any
//! parse.

use vstd::prelude::*;
use crate::lines::Lines;
use crate::node::Node;
use crate::number::Number;
use crate::optional::Optional;
use crate::parse_error::ParseError;
use crate::repeat::Repeat;
use crate::rule::Rule;
use crate::rule::lemma_rules_size_elem;
use crate::rule::rule_size;
use crate::rule::rules_size;
use crate::select::Select;
use crate::sequence::Sequence;
use crate::text::Text;
use crate::token::Token;
use crate::until_any_or_whitespace::UntilAnyOrWhitespace;
use crate::whitespace::Whitespace;

verus! {

/// The names of a rule collection, in order.
pub open spec fn names_of(rules: Seq<(String, Rule)>) -> Seq<Seq<char>> {
    Seq::new(rules.len(), |i: int| rules[i].0@)
}

/// The position of the first occurrence of a name, if any.
pub open spec fn find_name(names: Seq<Seq<char>>, name: Seq<char>) -> Option<int>
    decreases names.len(),
{
    if names.len() == 0 {
        None
    } else if names[0] == name {
        Some(0)
    } else {
        match find_name(names.drop_first(), name) {
            Some(i) => Some(i + 1),
            None => None,
        }
    }
}

/// `find_name` returns the first matching position, and nothing exactly
/// when no position matches.
pub proof fn lemma_find_name(names: Seq<Seq<char>>, name: Seq<char>)
    ensures
        match find_name(names, name) {
            Some(i) => 0 <= i < names.len() && names[i] == name && forall|k: int|
                0 <= k < i ==> names[k] != name,
            None => forall|k: int| 0 <= k < names.len() ==> names[k] != name,
        },
    decreases names.len(),
{
    if names.len() > 0 {
        lemma_find_name(names.drop_first(), name);
        assert forall|k: int| 1 <= k < names.len() implies names[k] == names.drop_first()[k
            - 1] by {}
    }
}

/// True when every node reference inside the rule names some rule of the
/// collection.
pub open spec fn resolvable(r: Rule, names: Seq<Seq<char>>) -> bool
    decreases r,
{
    match r {
        Rule::Sequence(s) => rules_resolvable(s.args@, names),
        Rule::Select(s) => rules_resolvable(s.args@, names),
        Rule::Optional(o) => rules_resolvable(o.args@, names),
        Rule::Repeat(rp) => resolvable(*rp.rule, names),
        Rule::Lines(l) => resolvable(*l.rule, names),
        Rule::Node(n) => find_name(names, n.name@) is Some,
        _ => true,
    }
}

/// True when every rule of the list is resolvable.
pub open spec fn rules_resolvable(rs: Seq<Rule>, names: Seq<Seq<char>>) -> bool
    decreases rs,
{
    rs.len() == 0 || (resolvable(rs[0], names) && rules_resolvable(rs.drop_first(), names))
}

/// A failing element makes the list unresolvable.
pub proof fn lemma_rules_unresolvable_elem(rs: Seq<Rule>, names: Seq<Seq<char>>, i: int)
    requires
        0 <= i < rs.len(),
        !resolvable(rs[i], names),
    ensures
        !rules_resolvable(rs, names),
    decreases i,
{
    if i > 0 {
        lemma_rules_unresolvable_elem(rs.drop_first(), names, i - 1);
    }
}

/// True when `out` is `orig` with every node reference resolved to the
/// position of the first rule carrying its name, and nothing else
/// changed.
pub open spec fn linked_to(orig: Rule, out: Rule, names: Seq<Seq<char>>) -> bool
    decreases orig,
{
    match (orig, out) {
        (Rule::Sequence(a), Rule::Sequence(b)) => a.debug_id == b.debug_id && rules_linked_to(
            a.args@,
            b.args@,
            names,
        ),
        (Rule::Select(a), Rule::Select(b)) => a.debug_id == b.debug_id && rules_linked_to(
            a.args@,
            b.args@,
            names,
        ),
        (Rule::Optional(a), Rule::Optional(b)) => a.debug_id == b.debug_id && rules_linked_to(
            a.args@,
            b.args@,
            names,
        ),
        (Rule::Repeat(a), Rule::Repeat(b)) => a.debug_id == b.debug_id && a.optional == b.optional
            && linked_to(*a.rule, *b.rule, names),
        (Rule::Lines(a), Rule::Lines(b)) => a.debug_id == b.debug_id && linked_to(
            *a.rule,
            *b.rule,
            names,
        ),
        (Rule::Node(a), Rule::Node(b)) => {
            &&& a.name@ == b.name@
            &&& a.property == b.property
            &&& a.debug_id == b.debug_id
            &&& match find_name(names, a.name@) {
                Some(i) => b.index == Some(i as usize),
                None => false,
            }
        },
        _ => orig == out,
    }
}

/// True when the lists match element by element under `linked_to`.
pub open spec fn rules_linked_to(a: Seq<Rule>, b: Seq<Rule>, names: Seq<Seq<char>>) -> bool
    decreases a,
{
    a.len() == b.len() && forall|i: int| 0 <= i < a.len() ==> linked_to(#[trigger] a[i], b[i], names)
}

/// Clones an optional property name.
fn clone_prop(p: &Option<String>) -> (r: Option<String>)
    ensures
        r == *p,
{
    match p {
        Some(s) => Some(s.clone()),
        None => None,
    }
}

/// Finds the position of the first rule carrying a name.
fn find_rule_index(name: &String, rules: &[(String, Rule)]) -> (r: Option<usize>)
    ensures
        match find_name(names_of(rules@), name@) {
            Some(i) => r == Some(i as usize),
            None => r is None,
        },
{
    proof {
        lemma_find_name(names_of(rules@), name@);
    }
    let mut j: usize = 0;
    while j < rules.len()
        invariant
            j <= rules@.len(),
            forall|k: int| 0 <= k < j ==> names_of(rules@)[k] != name@,
        decreases rules@.len() - j,
    {
        let found = rules[j].0.eq(name);
        proof {
            lemma_find_name(names_of(rules@), name@);
            assert(names_of(rules@)[j as int] == rules@[j as int].0@);
        }
        if found {
            return Some(j);
        }
        j += 1;
    }
    None
}

/// Links one rule: rebuilds it with every node reference resolved.
fn link_rule(r: &Rule, rules: &[(String, Rule)]) -> (out: Result<Rule, ParseError>)
    ensures
        match out {
            Ok(linked) => resolvable(*r, names_of(rules@)) && linked_to(
                *r,
                linked,
                names_of(rules@),
            ),
            Err(_) => !resolvable(*r, names_of(rules@)),
        },
    decreases rule_size(*r), 0int,
{
    match r {
        Rule::Whitespace(w) => Ok(
            Rule::Whitespace(Whitespace { optional: w.optional, debug_id: w.debug_id }),
        ),
        Rule::Token(t) => Ok(
            Rule::Token(
                Token {
                    text: t.text.clone(),
                    not: t.not,
                    inverted: t.inverted,
                    property: clone_prop(&t.property),
                    debug_id: t.debug_id,
                },
            ),
        ),
        Rule::UntilAnyOrWhitespace(u) => Ok(
            Rule::UntilAnyOrWhitespace(
                UntilAnyOrWhitespace {
                    any_characters: u.any_characters.clone(),
                    optional: u.optional,
                    property: clone_prop(&u.property),
                    debug_id: u.debug_id,
                },
            ),
        ),
        Rule::Text(t) => Ok(
            Rule::Text(
                Text {
                    allow_empty: t.allow_empty,
                    property: clone_prop(&t.property),
                    debug_id: t.debug_id,
                },
            ),
        ),
        Rule::Number(n) => Ok(
            Rule::Number(
                Number {
                    property: clone_prop(&n.property),
                    debug_id: n.debug_id,
                    allow_underscore: n.allow_underscore,
                },
            ),
        ),
        Rule::Sequence(s) => {
            match link_rules(&s.args, rules) {
                Ok(args) => Ok(Rule::Sequence(Sequence { args, debug_id: s.debug_id })),
                Err(e) => Err(e),
            }
        },
        Rule::Select(s) => {
            match link_rules(&s.args, rules) {
                Ok(args) => Ok(Rule::Select(Select { args, debug_id: s.debug_id })),
                Err(e) => Err(e),
            }
        },
        Rule::Optional(o) => {
            match link_rules(&o.args, rules) {
                Ok(args) => Ok(Rule::Optional(Optional { args, debug_id: o.debug_id })),
                Err(e) => Err(e),
            }
        },
        Rule::Repeat(rp) => {
            match link_rule(&rp.rule, rules) {
                Ok(sub) => Ok(
                    Rule::Repeat(
                        Repeat {
                            rule: Box::new(sub),
                            optional: rp.optional,
                            debug_id: rp.debug_id,
                        },
                    ),
                ),
                Err(e) => Err(e),
            }
        },
        Rule::Lines(l) => {
            match link_rule(&l.rule, rules) {
                Ok(sub) => Ok(Rule::Lines(Lines { rule: Box::new(sub), debug_id: l.debug_id })),
                Err(e) => Err(e),
            }
        },
        Rule::Node(n) => {
            match find_rule_index(&n.name, rules) {
                Some(i) => Ok(
                    Rule::Node(
                        Node {
                            name: n.name.clone(),
                            property: clone_prop(&n.property),
                            debug_id: n.debug_id,
                            index: Some(i),
                        },
                    ),
                ),
                None => Err(ParseError::InvalidRule(n.debug_id)),
            }
        },
    }
}

/// Links a list of rules.
fn link_rules(rs: &Vec<Rule>, rules: &[(String, Rule)]) -> (out: Result<Vec<Rule>, ParseError>)
    ensures
        match out {
            Ok(linked) => rules_resolvable(rs@, names_of(rules@)) && rules_linked_to(
                rs@,
                linked@,
                names_of(rules@),
            ),
            Err(_) => !rules_resolvable(rs@, names_of(rules@)),
        },
    decreases rules_size(rs@), 1int,
{
    let mut out: Vec<Rule> = Vec::new();
    let mut i: usize = 0;
    while i < rs.len()
        invariant
            i <= rs@.len(),
            out@.len() == i,
            forall|k: int|
                0 <= k < i ==> resolvable(#[trigger] rs@[k], names_of(rules@)) && linked_to(
                    rs@[k],
                    out@[k],
                    names_of(rules@),
                ),
        decreases rs@.len() - i,
    {
        proof {
            lemma_rules_size_elem(rs@, i as int);
        }
        match link_rule(&rs[i], rules) {
            Ok(linked) => {
                out.push(linked);
            },
            Err(e) => {
                proof {
                    lemma_rules_unresolvable_elem(rs@, names_of(rules@), i as int);
                }
                return Err(e);
            },
        }
        i += 1;
    }
    proof {
        lemma_all_resolvable(rs@, names_of(rules@));
    }
    Ok(out)
}

/// A list whose elements are all resolvable is resolvable.
pub proof fn lemma_all_resolvable(rs: Seq<Rule>, names: Seq<Seq<char>>)
    requires
        forall|k: int| 0 <= k < rs.len() ==> resolvable(#[trigger] rs[k], names),
    ensures
        rules_resolvable(rs, names),
    decreases rs.len(),
{
    if rs.len() > 0 {
        assert(forall|k: int|
            0 <= k < rs.drop_first().len() ==> resolvable(
                #[trigger] rs.drop_first()[k],
                names,
            ));
        lemma_all_resolvable(rs.drop_first(), names);
    }
}

/// Resolves every node reference inside a rule collection to the position
/// of the first rule carrying the referenced name, and returns the linked
/// collection. Fails with an invalid-rule error when some reference names
/// no rule of the collection.
pub fn update_refs(rules: &[(String, Rule)]) -> (r: Result<Vec<(String, Rule)>, ParseError>)
    ensures
        match r {
            Ok(out) => {
                &&& out@.len() == rules@.len()
                &&& forall|i: int|
                    0 <= i < rules@.len() ==> (#[trigger] out@[i]).0@ == rules@[i].0@ && linked_to(
                        rules@[i].1,
                        out@[i].1,
                        names_of(rules@),
                    )
            },
            Err(_) => exists|i: int|
                0 <= i < rules@.len() && !resolvable(#[trigger] rules@[i].1, names_of(rules@)),
        },
{
    let mut out: Vec<(String, Rule)> = Vec::new();
    let mut i: usize = 0;
    while i < rules.len()
        invariant
            i <= rules@.len(),
            out@.len() == i,
            forall|k: int|
                0 <= k < i ==> (#[trigger] out@[k]).0@ == rules@[k].0@ && linked_to(
                    rules@[k].1,
                    out@[k].1,
                    names_of(rules@),
                ),
        decreases rules@.len() - i,
    {
        match link_rule(&rules[i].1, rules) {
            Ok(linked) => {
                out.push((rules[i].0.clone(), linked));
            },
            Err(e) => {
                return Err(e);
            },
        }
        i += 1;
    }
    Ok(out)
}

} // verus!
