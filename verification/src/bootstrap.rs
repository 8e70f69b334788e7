//! The bootstrap grammar: a fixed, hand-built rule collection describing
//! the textual notation for rule declarations, and the converter that
//! turns a parsed declaration document back into a rule collection.
//!
//! The notation declares one rule per line:
//!
//! ```text
//! <number> "<name>" [<item> <item> ...]
//! ```
//!
//! where an item is one of
//!
//! - `"text"`, `!"text"`, `"text":"prop"`, `"text":~"prop"` — a literal
//!   token, negated by `!`, bound to a property after `:`, with `~`
//!   flipping the stored boolean;
//! - `w!` / `w?` — required / optional whitespace;
//! - `t!` / `t?`, optionally followed by `"prop"` — non-empty / possibly
//!   empty quoted text, bound to a property;
//! - `$`, optionally followed by `_` and by `"prop"` — a number, with
//!   underscores allowed after `_`;
//! - `."stop"!` / `."stop"?`, optionally followed by `"prop"` — read
//!   until a stop character or whitespace, required / optional;
//! - `r![...]` / `r?[...]` — repeat the bracketed sequence, at least once
//!   / any number of times;
//! - `l[...]` — the bracketed sequence once per line;
//! - `?[...]` — the bracketed sequence, optionally;
//! - `{<item> <item> ...}` — the first matching alternative;
//! - `[<item> <item> ...]` — a nested sequence;
//! - `@"name"` / `@"name":"prop"` — a reference to the rule of that name,
//!   bracketing its output with structural events when bound.
//!
//! The declared number is emitted as the `id` property of the declaration
//! and otherwise ignored by the converter, which numbers the rules it
//! builds by position.

use vstd::prelude::*;
use crate::DebugId;
use crate::MetaData;
use crate::lines::Lines;
use crate::node::Node;
use crate::number::Number;
use crate::optional::Optional;
use crate::range::Range;
use crate::repeat::Repeat;
use crate::rule::Rule;
use crate::select::Select;
use crate::sequence::Sequence;
use crate::text::Text;
use crate::token::Token;
use crate::until_any_or_whitespace::UntilAnyOrWhitespace;
use crate::whitespace::Whitespace;
use vstd::string::StringExecFns;

verus! {

/// Builds a plain literal token rule.
fn tok(text: &str, debug_id: DebugId) -> Rule {
    Rule::Token(
        Token {
            text: String::from_str(text),
            not: false,
            inverted: false,
            property: None,
            debug_id,
        },
    )
}

/// Builds a literal token rule bound to a property.
fn tok_prop(text: &str, prop: &str, debug_id: DebugId) -> Rule {
    Rule::Token(
        Token {
            text: String::from_str(text),
            not: false,
            inverted: false,
            property: Some(String::from_str(prop)),
            debug_id,
        },
    )
}

/// Builds a quoted-text rule bound to a property.
fn txt_prop(prop: &str, allow_empty: bool, debug_id: DebugId) -> Rule {
    Rule::Text(
        Text { allow_empty, property: Some(String::from_str(prop)), debug_id },
    )
}

/// Builds a whitespace rule.
fn ws(optional: bool, debug_id: DebugId) -> Rule {
    Rule::Whitespace(Whitespace { optional, debug_id })
}

/// Builds a node reference with its index already resolved.
fn node_at(index: usize, name: &str, prop: Option<&str>, debug_id: DebugId) -> (r: Rule)
    ensures
        r matches Rule::Node(n) && ({
            &&& n.index == Some(index)
            &&& n.name@ == name@
            &&& n.debug_id == debug_id
            &&& match prop {
                Some(p) => n.property matches Some(q) && q@ == p@,
                None => n.property is None,
            }
        }),
{
    let property = match prop {
        Some(p) => Some(String::from_str(p)),
        None => None,
    };
    Rule::Node(
        Node { name: String::from_str(name), property, debug_id, index: Some(index) },
    )
}

/// Builds the choice between a `!` and a `?` marker, bound to the
/// `required` and `optional` properties.
fn flag_select(debug_id: DebugId) -> Rule {
    Rule::Select(
        Select {
            args: vec![
                tok_prop("!", "required", debug_id),
                tok_prop("?", "optional", debug_id),
            ],
            debug_id,
        },
    )
}

/// The repetition of whitespace-separated items that `[...]`, `{...}` and
/// the rule body share.
fn items_repeat(debug_id: DebugId) -> Rule {
    Rule::Repeat(
        Repeat {
            rule: Box::new(
                Rule::Sequence(
                    Sequence {
                        args: vec![ws(true, debug_id), node_at(2, "item", None, debug_id)],
                        debug_id,
                    },
                ),
            ),
            optional: true,
            debug_id,
        },
    )
}

/// The fixed rule collection describing the meta notation itself. It is
/// built with every node reference already resolved, so it parses
/// declaration documents without a linking pass. The collection holds
/// fourteen rules and ends with the document rule the parse starts from.
pub fn rules() -> (r: Vec<(String, Rule)>)
    ensures
        r@.len() == 14,
        // The collection ends with the document rule the parse starts
        // from: one rule declaration per line, each bracketed as a
        // `rule` node referencing the declaration rule at the front.
        r@.last().0@ == Seq::<char>::empty(),
        (r@.last().1 matches Rule::Lines(l) && ({
            &&& *l.rule matches Rule::Node(n)
            &&& n.index == Some(0usize)
            &&& n.name@ == "rule"@
            &&& (n.property matches Some(p) && p@ == "rule"@)
        })),
        r@[0].0@ == "rule"@,
{
    proof {
        reveal_strlit("rule");
        reveal_strlit("");
    }
    // 0: one rule declaration.
    let rule_decl = Rule::Sequence(
        Sequence {
            args: vec![
                Rule::Number(
                    Number {
                        property: Some(String::from_str("id")),
                        debug_id: 1,
                        allow_underscore: false,
                    },
                ),
                ws(false, 2),
                txt_prop("name", false, 3),
                ws(false, 4),
                node_at(1, "body", Some("body"), 5),
            ],
            debug_id: 0,
        },
    );
    // 1: a bracketed sequence of items.
    let body = Rule::Sequence(
        Sequence {
            args: vec![tok("[", 11), items_repeat(12), ws(true, 13), tok("]", 14)],
            debug_id: 10,
        },
    );
    // 2: one item, dispatched on its leading characters.
    let item = Rule::Select(
        Select {
            args: vec![
                node_at(3, "whitespace_item", Some("whitespace"), 21),
                node_at(4, "text_item", Some("text"), 22),
                node_at(5, "number_item", Some("number"), 23),
                node_at(6, "until_item", Some("until"), 24),
                node_at(7, "repeat_item", Some("repeat"), 25),
                node_at(8, "lines_item", Some("lines"), 26),
                node_at(9, "optional_item", Some("optional"), 27),
                node_at(10, "select_item", Some("select"), 28),
                node_at(11, "node_item", Some("node"), 29),
                node_at(1, "body", Some("sequence"), 30),
                node_at(12, "token_item", Some("token"), 31),
            ],
            debug_id: 20,
        },
    );
    // 3: `w!` or `w?`.
    let whitespace_item = Rule::Select(
        Select {
            args: vec![
                tok_prop("w!", "required", 41),
                tok_prop("w?", "optional", 42),
            ],
            debug_id: 40,
        },
    );
    // 4: `t!` or `t?`, with an optional property.
    let text_item = Rule::Sequence(
        Sequence {
            args: vec![
                Rule::Select(
                    Select {
                        args: vec![
                            tok_prop("t!", "required", 51),
                            tok_prop("t?", "optional", 52),
                        ],
                        debug_id: 53,
                    },
                ),
                Rule::Optional(
                    Optional { args: vec![txt_prop("property", false, 54)], debug_id: 55 },
                ),
            ],
            debug_id: 50,
        },
    );
    // 5: `$`, with optional `_` and property.
    let number_item = Rule::Sequence(
        Sequence {
            args: vec![
                tok("$", 61),
                Rule::Optional(
                    Optional { args: vec![tok_prop("_", "underscore", 62)], debug_id: 63 },
                ),
                Rule::Optional(
                    Optional { args: vec![txt_prop("property", false, 64)], debug_id: 65 },
                ),
            ],
            debug_id: 60,
        },
    );
    // 6: `."stop"!` or `."stop"?`, with an optional property.
    let until_item = Rule::Sequence(
        Sequence {
            args: vec![
                tok(".", 71),
                txt_prop("chars", true, 72),
                flag_select(73),
                Rule::Optional(
                    Optional { args: vec![txt_prop("property", false, 74)], debug_id: 75 },
                ),
            ],
            debug_id: 70,
        },
    );
    // 7: `r!` or `r?` followed by a bracketed sequence.
    let repeat_item = Rule::Sequence(
        Sequence {
            args: vec![tok("r", 81), flag_select(82), node_at(1, "body", None, 83)],
            debug_id: 80,
        },
    );
    // 8: `l` followed by a bracketed sequence.
    let lines_item = Rule::Sequence(
        Sequence {
            args: vec![tok("l", 91), node_at(1, "body", None, 92)],
            debug_id: 90,
        },
    );
    // 9: `?` followed by a bracketed sequence.
    let optional_item = Rule::Sequence(
        Sequence {
            args: vec![tok("?", 101), node_at(1, "body", None, 102)],
            debug_id: 100,
        },
    );
    // 10: alternatives between braces.
    let select_item = Rule::Sequence(
        Sequence {
            args: vec![tok("{", 111), items_repeat(112), ws(true, 113), tok("}", 114)],
            debug_id: 110,
        },
    );
    // 11: `@"name"`, with an optional property after `:`.
    let node_item = Rule::Sequence(
        Sequence {
            args: vec![
                tok("@", 121),
                txt_prop("name", false, 122),
                Rule::Optional(
                    Optional {
                        args: vec![tok(":", 123), txt_prop("property", false, 124)],
                        debug_id: 125,
                    },
                ),
            ],
            debug_id: 120,
        },
    );
    // 12: a literal token with its markers.
    let token_item = Rule::Sequence(
        Sequence {
            args: vec![
                Rule::Optional(
                    Optional { args: vec![tok_prop("!", "not", 131)], debug_id: 132 },
                ),
                txt_prop("text", false, 133),
                Rule::Optional(
                    Optional {
                        args: vec![
                            tok(":", 134),
                            Rule::Optional(
                                Optional {
                                    args: vec![tok_prop("~", "inverted", 135)],
                                    debug_id: 136,
                                },
                            ),
                            txt_prop("property", false, 137),
                        ],
                        debug_id: 138,
                    },
                ),
            ],
            debug_id: 130,
        },
    );
    // 13: the document: one rule declaration per line.
    let document = Rule::Lines(
        Lines { rule: Box::new(node_at(0, "rule", Some("rule"), 141)), debug_id: 140 },
    );
    vec![
        (String::from_str("rule"), rule_decl),
        (String::from_str("body"), body),
        (String::from_str("item"), item),
        (String::from_str("whitespace_item"), whitespace_item),
        (String::from_str("text_item"), text_item),
        (String::from_str("number_item"), number_item),
        (String::from_str("until_item"), until_item),
        (String::from_str("repeat_item"), repeat_item),
        (String::from_str("lines_item"), lines_item),
        (String::from_str("optional_item"), optional_item),
        (String::from_str("select_item"), select_item),
        (String::from_str("node_item"), node_item),
        (String::from_str("token_item"), token_item),
        (String::from_str(""), document),
    ]
}

/// True when a string equals a literal.
fn is_name(s: &String, lit: &str) -> (r: bool)
    ensures
        r == (s@ == lit@),
{
    let l = String::from_str(lit);
    s.eq(&l)
}

/// The flags and fields one flat item can carry.
struct ItemFields {
    required: bool,
    optional: bool,
    underscore: bool,
    not: bool,
    inverted: bool,
    text: Option<String>,
    name: Option<String>,
    chars: Option<String>,
    property: Option<String>,
}

/// Reads the boolean and string properties of one flat item, up to and
/// including its end event.
fn read_flat(data: &[(Range, MetaData)], pos: usize, close: &str) -> (r: Option<
    (usize, ItemFields),
>)
    requires
        pos <= data@.len(),
    ensures
        r matches Some((p, _)) ==> pos < p <= data@.len(),
{
    let mut fields = ItemFields {
        required: false,
        optional: false,
        underscore: false,
        not: false,
        inverted: false,
        text: None,
        name: None,
        chars: None,
        property: None,
    };
    let mut p = pos;
    while p < data.len()
        invariant
            pos <= p <= data@.len(),
        decreases data@.len() - p,
    {
        match &data[p].1 {
            MetaData::EndNode(nm) => {
                if is_name(nm, close) {
                    return Some((p + 1, fields));
                } else {
                    return None;
                }
            },
            MetaData::Bool(nm, v) => {
                if is_name(nm, "required") {
                    fields.required = *v;
                } else if is_name(nm, "optional") {
                    fields.optional = *v;
                } else if is_name(nm, "underscore") {
                    fields.underscore = *v;
                } else if is_name(nm, "not") {
                    fields.not = *v;
                } else if is_name(nm, "inverted") {
                    fields.inverted = *v;
                } else {
                    return None;
                }
            },
            MetaData::String(nm, s) => {
                if is_name(nm, "text") {
                    fields.text = Some(s.clone());
                } else if is_name(nm, "name") {
                    fields.name = Some(s.clone());
                } else if is_name(nm, "chars") {
                    fields.chars = Some(s.clone());
                } else if is_name(nm, "property") {
                    fields.property = Some(s.clone());
                } else {
                    return None;
                }
            },
            _ => {
                return None;
            },
        }
        p += 1;
    }
    None
}

/// Converts one item, starting at its start event.
fn convert_item(data: &[(Range, MetaData)], pos: usize, debug_id: DebugId) -> (r: Option<
    (usize, Rule),
>)
    requires
        pos <= data@.len(),
    ensures
        r matches Some((p, _)) ==> pos < p <= data@.len(),
    decreases data@.len() - pos, 0int,
{
    if pos >= data.len() {
        return None;
    }
    let kind = match &data[pos].1 {
        MetaData::StartNode(nm) => nm.clone(),
        _ => {
            return None;
        },
    };
    if is_name(&kind, "whitespace") {
        match read_flat(data, pos + 1, "whitespace") {
            Some((p, f)) => Some(
                (p, Rule::Whitespace(Whitespace { optional: f.optional, debug_id })),
            ),
            None => None,
        }
    } else if is_name(&kind, "text") {
        match read_flat(data, pos + 1, "text") {
            Some((p, f)) => Some(
                (
                    p,
                    Rule::Text(
                        Text { allow_empty: f.optional, property: f.property, debug_id },
                    ),
                ),
            ),
            None => None,
        }
    } else if is_name(&kind, "number") {
        match read_flat(data, pos + 1, "number") {
            Some((p, f)) => Some(
                (
                    p,
                    Rule::Number(
                        Number {
                            property: f.property,
                            debug_id,
                            allow_underscore: f.underscore,
                        },
                    ),
                ),
            ),
            None => None,
        }
    } else if is_name(&kind, "until") {
        match read_flat(data, pos + 1, "until") {
            Some((p, f)) => {
                match f.chars {
                    Some(chars) => Some(
                        (
                            p,
                            Rule::UntilAnyOrWhitespace(
                                UntilAnyOrWhitespace {
                                    any_characters: chars,
                                    optional: f.optional,
                                    property: f.property,
                                    debug_id,
                                },
                            ),
                        ),
                    ),
                    None => None,
                }
            },
            None => None,
        }
    } else if is_name(&kind, "node") {
        match read_flat(data, pos + 1, "node") {
            Some((p, f)) => {
                match f.name {
                    Some(name) => Some(
                        (
                            p,
                            Rule::Node(
                                Node { name, property: f.property, debug_id, index: None },
                            ),
                        ),
                    ),
                    None => None,
                }
            },
            None => None,
        }
    } else if is_name(&kind, "token") {
        match read_flat(data, pos + 1, "token") {
            Some((p, f)) => {
                match f.text {
                    Some(text) => Some(
                        (
                            p,
                            Rule::Token(
                                Token {
                                    text,
                                    not: f.not,
                                    inverted: f.inverted,
                                    property: f.property,
                                    debug_id,
                                },
                            ),
                        ),
                    ),
                    None => None,
                }
            },
            None => None,
        }
    } else if is_name(&kind, "repeat") {
        if pos + 1 >= data.len() {
            return None;
        }
        let optional = match &data[pos + 1].1 {
            MetaData::Bool(nm, v) => {
                if is_name(nm, "optional") {
                    *v
                } else if is_name(nm, "required") {
                    !*v
                } else {
                    return None;
                }
            },
            _ => {
                return None;
            },
        };
        match convert_items(data, pos + 2, "repeat", debug_id) {
            Some((p, args)) => Some(
                (
                    p,
                    Rule::Repeat(
                        Repeat {
                            rule: Box::new(Rule::Sequence(Sequence { args, debug_id })),
                            optional,
                            debug_id,
                        },
                    ),
                ),
            ),
            None => None,
        }
    } else if is_name(&kind, "lines") {
        match convert_items(data, pos + 1, "lines", debug_id) {
            Some((p, args)) => Some(
                (
                    p,
                    Rule::Lines(
                        Lines {
                            rule: Box::new(Rule::Sequence(Sequence { args, debug_id })),
                            debug_id,
                        },
                    ),
                ),
            ),
            None => None,
        }
    } else if is_name(&kind, "optional") {
        match convert_items(data, pos + 1, "optional", debug_id) {
            Some((p, args)) => Some((p, Rule::Optional(Optional { args, debug_id }))),
            None => None,
        }
    } else if is_name(&kind, "select") {
        match convert_items(data, pos + 1, "select", debug_id) {
            Some((p, args)) => Some((p, Rule::Select(Select { args, debug_id }))),
            None => None,
        }
    } else if is_name(&kind, "sequence") {
        match convert_items(data, pos + 1, "sequence", debug_id) {
            Some((p, args)) => Some((p, Rule::Sequence(Sequence { args, debug_id }))),
            None => None,
        }
    } else {
        None
    }
}

/// Converts items until the closing end event of the surrounding node.
fn convert_items(data: &[(Range, MetaData)], pos: usize, close: &str, debug_id: DebugId) -> (r:
    Option<(usize, Vec<Rule>)>)
    requires
        pos <= data@.len(),
    ensures
        r matches Some((p, _)) ==> pos < p <= data@.len(),
    decreases data@.len() - pos, 1int,
{
    let mut out: Vec<Rule> = Vec::new();
    let mut p = pos;
    while p < data.len()
        invariant
            pos <= p <= data@.len(),
        decreases data@.len() - p,
    {
        let is_end = match &data[p].1 {
            MetaData::EndNode(nm) => is_name(nm, close),
            _ => false,
        };
        if is_end {
            return Some((p + 1, out));
        }
        match convert_item(data, p, debug_id) {
            Some((p2, rule)) => {
                out.push(rule);
                p = p2;
            },
            None => {
                return None;
            },
        }
    }
    None
}

/// Converts one rule declaration, starting at its start event.
fn convert_rule(data: &[(Range, MetaData)], pos: usize, debug_id: DebugId) -> (r: Option<
    (usize, (String, Rule)),
>)
    requires
        pos < data@.len(),
    ensures
        r matches Some((p, _)) ==> pos < p <= data@.len(),
{
    match &data[pos].1 {
        MetaData::StartNode(nm) => {
            if !is_name(nm, "rule") {
                return None;
            }
        },
        _ => {
            return None;
        },
    }
    let mut p = pos + 1;
    // The declared number: recorded, otherwise unused.
    if p < data.len() {
        match &data[p].1 {
            MetaData::F64(nm, _) => {
                if is_name(nm, "id") {
                    p += 1;
                }
            },
            _ => {},
        }
    }
    if p >= data.len() {
        return None;
    }
    let name = match &data[p].1 {
        MetaData::String(nm, s) => {
            if is_name(nm, "name") {
                s.clone()
            } else {
                return None;
            }
        },
        _ => {
            return None;
        },
    };
    p += 1;
    if p >= data.len() {
        return None;
    }
    match &data[p].1 {
        MetaData::StartNode(nm) => {
            if !is_name(nm, "body") {
                return None;
            }
        },
        _ => {
            return None;
        },
    }
    let (p2, args) = match convert_items(data, p + 1, "body", debug_id) {
        Some(x) => x,
        None => {
            return None;
        },
    };
    p = p2;
    if p >= data.len() {
        return None;
    }
    match &data[p].1 {
        MetaData::EndNode(nm) => {
            if !is_name(nm, "rule") {
                return None;
            }
        },
        _ => {
            return None;
        },
    }
    Some((p + 1, (name, Rule::Sequence(Sequence { args, debug_id }))))
}

/// Converts a parsed declaration document back into a rule collection,
/// with node references left unresolved for the linker. Events that stand
/// outside rule declarations are moved to the `ignored` sink. Returns
/// nothing when the event stream does not encode a declaration document.
pub fn convert(
    data: &[(Range, MetaData)],
    ignored: &mut Vec<(Range, MetaData)>,
) -> (r: Option<Vec<(String, Rule)>>)
    ensures
        r matches Some(out) ==> out@.len() <= data@.len(),
{
    let mut out: Vec<(String, Rule)> = Vec::new();
    let mut p: usize = 0;
    while p < data.len()
        invariant
            p <= data@.len(),
            out@.len() <= p,
        decreases data@.len() - p,
    {
        let is_rule_start = match &data[p].1 {
            MetaData::StartNode(nm) => is_name(nm, "rule"),
            _ => false,
        };
        if is_rule_start {
            match convert_rule(data, p, out.len()) {
                Some((p2, named_rule)) => {
                    out.push(named_rule);
                    p = p2;
                },
                None => {
                    return None;
                },
            }
        } else {
            ignored.push((data[p].0, data[p].1.clone()));
            p += 1;
        }
    }
    if out.len() == 0 {
        None
    } else {
        Some(out)
    }
}

} // verus!
