//! Tests of the individual rules and the evaluator.

use piston_meta::MetaData;
use piston_meta::Node;
use piston_meta::Number;
use piston_meta::Optional;
use piston_meta::ParseError;
use piston_meta::Range;
use piston_meta::Repeat;
use piston_meta::Rule;
use piston_meta::Select;
use piston_meta::Sequence;
use piston_meta::Text;
use piston_meta::Token;
use piston_meta::TokenizerState;
use piston_meta::UntilAnyOrWhitespace;
use piston_meta::Whitespace;
use piston_meta::Lines;
use piston_meta::parse;
use piston_meta::update_refs;

fn no_refs() -> Vec<(String, Rule)> {
    vec![]
}

#[test]
fn expected_token() {
    let text = ")";
    let chars: Vec<char> = text.chars().collect();
    let start_parenthesis = Token {
        debug_id: 0,
        text: "(".to_string(),
        not: false,
        inverted: false,
        property: None,
    };
    let mut tokens = vec![];
    let s = TokenizerState::new();
    let res = start_parenthesis.parse(&mut tokens, &s, &chars, 0);
    assert_eq!(
        res,
        Err((Range::new(0, 0), ParseError::ExpectedToken("(".to_string(), 0)))
    );
}

#[test]
fn did_not_expect_token() {
    let text = ")";
    let chars: Vec<char> = text.chars().collect();
    let start_parenthesis = Token {
        debug_id: 0,
        text: ")".to_string(),
        not: true,
        inverted: false,
        property: None,
    };
    let mut tokens = vec![];
    let s = TokenizerState::new();
    let res = start_parenthesis.parse(&mut tokens, &s, &chars, 0);
    assert_eq!(
        res,
        Err((Range::new(0, 1), ParseError::DidNotExpectToken(")".to_string(), 0)))
    );
}

#[test]
fn token_successful() {
    let text = "fn foo()";
    let chars: Vec<char> = text.chars().collect();
    let fn_ = Token {
        debug_id: 0,
        text: "fn ".to_string(),
        not: false,
        inverted: false,
        property: None,
    };
    let mut tokens = vec![];
    let s = TokenizerState::new();
    let res = fn_.parse(&mut tokens, &s, &chars, 0);
    assert_eq!(res, Ok((Range::new(0, 3), s, None)));
    assert_eq!(tokens.len(), 0);

    // Set bool property.
    let mut tokens = vec![];
    let has_arguments: String = "has_arguments".to_string();
    let start_parenthesis = Token {
        debug_id: 0,
        text: "(".to_string(),
        not: false,
        inverted: false,
        property: Some(has_arguments.clone()),
    };
    let s = TokenizerState::new();
    let res = start_parenthesis.parse(&mut tokens, &s, &chars, 6);
    assert_eq!(res, Ok((Range::new(6, 1), TokenizerState(1), None)));
    assert_eq!(tokens.len(), 1);
    assert_eq!(&tokens[0].1, &MetaData::Bool(has_arguments.clone(), true));

    // Set inverted bool property.
    let mut tokens = vec![];
    let has_arguments: String = "has_no_arguments".to_string();
    let start_parenthesis = Token {
        debug_id: 0,
        text: "(".to_string(),
        not: false,
        inverted: true,
        property: Some(has_arguments.clone()),
    };
    let s = TokenizerState::new();
    let res = start_parenthesis.parse(&mut tokens, &s, &chars, 6);
    assert_eq!(res, Ok((Range::new(6, 1), TokenizerState(1), None)));
    assert_eq!(tokens.len(), 1);
    assert_eq!(&tokens[0].1, &MetaData::Bool(has_arguments.clone(), false));
}

/// A negated token that does not match succeeds and stores the
/// inverted-flagged boolean directly.
#[test]
fn token_inversion() {
    let text = ")";
    let chars: Vec<char> = text.chars().collect();
    for (inverted, expected) in [(true, true), (false, false)] {
        let token = Token {
            debug_id: 0,
            text: "(".to_string(),
            not: true,
            inverted,
            property: Some("p".to_string()),
        };
        let mut tokens = vec![];
        let s = TokenizerState::new();
        let res = token.parse(&mut tokens, &s, &chars, 0);
        assert_eq!(res, Ok((Range::new(0, 0), TokenizerState(1), None)));
        assert_eq!(tokens.len(), 1);
        assert_eq!(&tokens[0].1, &MetaData::Bool("p".to_string(), expected));
    }
}

#[test]
fn optional() {
    let text = "a,b, c";
    let chars: Vec<char> = text.chars().collect();
    let optional_whitespace = Whitespace { debug_id: 0, optional: true };
    assert_eq!(optional_whitespace.parse(&chars, 0), Ok(Range::new(0, 0)));
    assert_eq!(optional_whitespace.parse(&chars, 4), Ok(Range::new(4, 1)));
}

#[test]
fn whitespace_required() {
    let text = "a,   b,c";
    let chars: Vec<char> = text.chars().collect();
    let required_whitespace = Whitespace { debug_id: 0, optional: false };
    assert_eq!(required_whitespace.parse(&chars, 2), Ok(Range::new(2, 3)));
    assert_eq!(
        required_whitespace.parse(&chars, 7),
        Err((Range::new(7, 0), ParseError::ExpectedWhitespace(0)))
    );
}

#[test]
fn until_any_or_whitespace_required() {
    let text = "fn ()";
    let chars: Vec<char> = text.chars().collect();
    let mut tokenizer = vec![];
    let s = TokenizerState::new();
    let name = UntilAnyOrWhitespace {
        debug_id: 0,
        any_characters: "(".to_string(),
        optional: false,
        property: None,
    };
    let res = name.parse(&mut tokenizer, &s, &chars, 3);
    assert_eq!(res, Err((Range::new(3, 0), ParseError::ExpectedSomething(0))));
}

#[test]
fn until_any_or_whitespace_successful() {
    let text = "fn foo()";
    let chars: Vec<char> = text.chars().collect();
    let mut tokens = vec![];
    let s = TokenizerState::new();
    let function_name: String = "function_name".to_string();
    let name = UntilAnyOrWhitespace {
        debug_id: 0,
        any_characters: "(".to_string(),
        optional: false,
        property: Some(function_name.clone()),
    };
    let res = name.parse(&mut tokens, &s, &chars, 3);
    assert_eq!(res, Ok((Range::new(3, 3), TokenizerState(1), None)));
    assert_eq!(tokens.len(), 1);
    assert_eq!(
        &tokens[0].1,
        &MetaData::String(function_name.clone(), "foo".to_string())
    );
}

#[test]
fn expected_number() {
    let text = "foo";
    let chars: Vec<char> = text.chars().collect();
    let number = Number { debug_id: 0, property: None, allow_underscore: false };
    let mut tokenizer = vec![];
    let s = TokenizerState::new();
    let res = number.parse(&mut tokenizer, &s, &chars, 0);
    assert_eq!(res, Err((Range::new(0, 0), ParseError::ExpectedNumber(0))));
}

#[test]
fn number_successful() {
    let text = "foo 1 1.1 10e1 10.0E1 10_000";
    let chars: Vec<char> = text.chars().collect();
    let number = Number { debug_id: 0, property: None, allow_underscore: true };
    let mut tokens = vec![];
    let s = TokenizerState::new();
    let res = number.parse(&mut tokens, &s, &chars, 4);
    assert_eq!(res, Ok((Range::new(4, 1), s, None)));
    let res = number.parse(&mut tokens, &s, &chars, 6);
    assert_eq!(res, Ok((Range::new(6, 3), s, None)));
    let res = number.parse(&mut tokens, &s, &chars, 10);
    assert_eq!(res, Ok((Range::new(10, 4), s, None)));
    let res = number.parse(&mut tokens, &s, &chars, 22);
    assert_eq!(res, Ok((Range::new(22, 6), s, None)));

    let val: String = "val".to_string();
    let number = Number {
        debug_id: 0,
        property: Some(val.clone()),
        allow_underscore: false,
    };
    let res = number.parse(&mut tokens, &s, &chars, 15);
    assert_eq!(res, Ok((Range::new(15, 6), TokenizerState(1), None)));
    assert_eq!(tokens.len(), 1);
    assert_eq!(&tokens[0].1, &MetaData::F64(val.clone(), (10.0e1f64).to_bits()));
}

/// A number token whose significand overflows the double range is
/// rejected with the wrapped number-parse error.
#[test]
fn number_overflow() {
    let text = "99999999999999999999999";
    let chars: Vec<char> = text.chars().collect();
    let number = Number { debug_id: 7, property: None, allow_underscore: false };
    let mut tokens = vec![];
    let s = TokenizerState::new();
    let res = number.parse(&mut tokens, &s, &chars, 0);
    assert_eq!(
        res,
        Err((Range::new(0, 23), ParseError::ParseNumberError(7)))
    );
}

/// Quoted text is decoded, escapes included; empty text can be refused.
#[test]
fn text_successful() {
    let text = "\"he\\\"llo\" \"\"";
    let chars: Vec<char> = text.chars().collect();
    let rule = Text {
        debug_id: 0,
        allow_empty: true,
        property: Some("t".to_string()),
    };
    let mut tokens = vec![];
    let s = TokenizerState::new();
    let res = rule.parse(&mut tokens, &s, &chars, 0);
    assert_eq!(res, Ok((Range::new(0, 9), TokenizerState(1), None)));
    assert_eq!(
        &tokens[0].1,
        &MetaData::String("t".to_string(), "he\"llo".to_string())
    );

    let strict = Text { debug_id: 1, allow_empty: false, property: None };
    let mut tokens = vec![];
    let res = strict.parse(&mut tokens, &s, &chars, 10);
    assert_eq!(res, Err((Range::new(10, 2), ParseError::ExpectedText(1))));
    assert_eq!(tokens.len(), 0);

    let missing = Text { debug_id: 2, allow_empty: true, property: None };
    let mut tokens = vec![];
    let res = missing.parse(&mut tokens, &s, &chars, 3);
    assert_eq!(res, Err((Range::new(3, 0), ParseError::ExpectedText(2))));
}

#[test]
fn fail_but_continue() {
    let text = "2";
    let chars: Vec<char> = text.chars().collect();
    let mut tokenizer = vec![];
    let s = TokenizerState::new();
    let num: String = "num".to_string();
    // Will fail because text is expected first.
    let optional = Optional {
        debug_id: 0,
        args: vec![
            Rule::Text(Text { debug_id: 0, allow_empty: true, property: None }),
            Rule::Number(Number {
                debug_id: 0,
                property: Some(num.clone()),
                allow_underscore: false,
            }),
        ],
    };
    let refs = no_refs();
    let res = optional.parse(&mut tokenizer, &s, &chars, 0, &refs, 100);
    assert_eq!(
        res,
        (
            Range::new(0, 0),
            TokenizerState(0),
            Some((Range::new(0, 0), ParseError::ExpectedText(0)))
        )
    );
    assert_eq!(tokenizer.len(), 0);
}

#[test]
fn repeat_fail() {
    let text = "[a][a][a]";
    let chars: Vec<char> = text.chars().collect();
    let mut tokens = vec![];
    let s = TokenizerState::new();
    let token: String = "(a)".to_string();
    let rule = Repeat {
        debug_id: 0,
        optional: false,
        rule: Box::new(Rule::Token(Token {
            debug_id: 1,
            text: token.clone(),
            not: false,
            inverted: false,
            property: None,
        })),
    };
    let refs = no_refs();
    let res = rule.parse(&mut tokens, &s, &chars, 0, &refs, 100);
    assert_eq!(
        res,
        Err((Range::new(0, 0), ParseError::ExpectedToken(token.clone(), 1)))
    );
}

#[test]
fn repeat_success() {
    let text = "(a)(a)(a)";
    let chars: Vec<char> = text.chars().collect();
    let mut tokens = vec![];
    let s = TokenizerState::new();
    let token: String = "(a)".to_string();
    let rule = Repeat {
        debug_id: 0,
        optional: false,
        rule: Box::new(Rule::Token(Token {
            debug_id: 1,
            text: token.clone(),
            not: false,
            inverted: false,
            property: None,
        })),
    };
    let refs = no_refs();
    let res = rule.parse(&mut tokens, &s, &chars, 0, &refs, 100);
    assert_eq!(
        res,
        Ok((
            Range::new(0, 9),
            TokenizerState(0),
            Some((Range::new(9, 0), ParseError::ExpectedToken(token.clone(), 1)))
        ))
    );
}

#[test]
fn lines_fail() {
    let text = "\n1\n2\n\n3\n\n\n\"error\"\n4\n        ";
    let chars: Vec<char> = text.chars().collect();
    let mut tokenizer = vec![];
    let s = TokenizerState::new();
    let lines = Lines {
        debug_id: 0,
        rule: Box::new(Rule::Number(Number {
            debug_id: 1,
            property: None,
            allow_underscore: false,
        })),
    };
    let refs = no_refs();
    let res = lines.parse(&mut tokenizer, &s, &chars, 0, &refs, 100);
    assert_eq!(
        res,
        Ok((
            Range::new(0, 10),
            s,
            Some((Range::new(10, 0), ParseError::ExpectedNumber(1)))
        ))
    );
}

#[test]
fn fails_same_line() {
    let text = "\n1\n2\n\n3 4\n\n5\n ";
    let chars: Vec<char> = text.chars().collect();
    let mut tokenizer = vec![];
    let s = TokenizerState::new();
    let val: String = "val".to_string();
    let lines = Lines {
        debug_id: 0,
        rule: Box::new(Rule::Sequence(Sequence {
            debug_id: 1,
            args: vec![
                Rule::Number(Number {
                    debug_id: 1,
                    property: Some(val.clone()),
                    allow_underscore: false,
                }),
                Rule::Whitespace(Whitespace { debug_id: 2, optional: true }),
            ],
        })),
    };
    let refs = no_refs();
    let res = lines.parse(&mut tokenizer, &s, &chars, 0, &refs, 100);
    assert_eq!(res, Err((Range::new(8, 0), ParseError::ExpectedNewLine(0))));
}

#[test]
fn lines_success() {
    let text = "\n1\n2\n\n3\n\n\n4\n ";
    let chars: Vec<char> = text.chars().collect();
    let mut tokenizer = vec![];
    let s = TokenizerState::new();
    let val: String = "val".to_string();
    let lines = Lines {
        debug_id: 0,
        rule: Box::new(Rule::Number(Number {
            debug_id: 1,
            property: Some(val.clone()),
            allow_underscore: false,
        })),
    };
    let refs = no_refs();
    let res = lines.parse(&mut tokenizer, &s, &chars, 0, &refs, 100);
    assert_eq!(res, Ok((Range::new(0, 13), TokenizerState(4), None)));
}

#[test]
fn sequence() {
    let text = "\n1\n2\n3\n\"one\"\n\"two\"\n\"three\"\n        ";
    let num: String = "num".to_string();
    let tex: String = "tex".to_string();
    let rule = Rule::Sequence(Sequence {
        debug_id: 0,
        args: vec![
            Rule::Lines(Lines {
                debug_id: 1,
                rule: Box::new(Rule::Number(Number {
                    debug_id: 2,
                    allow_underscore: true,
                    property: Some(num.clone()),
                })),
            }),
            Rule::Lines(Lines {
                debug_id: 3,
                rule: Box::new(Rule::Text(Text {
                    debug_id: 4,
                    allow_empty: false,
                    property: Some(tex.clone()),
                })),
            }),
        ],
    });

    let rules = vec![("".to_string(), rule)];
    let res = parse(&rules, text).unwrap();
    assert_eq!(
        res,
        vec![
            (Range::new(1, 1), MetaData::F64(num.clone(), 1.0f64.to_bits())),
            (Range::new(3, 1), MetaData::F64(num.clone(), 2.0f64.to_bits())),
            (Range::new(5, 1), MetaData::F64(num.clone(), 3.0f64.to_bits())),
            (Range::new(7, 5), MetaData::String(tex.clone(), "one".to_string())),
            (Range::new(13, 5), MetaData::String(tex.clone(), "two".to_string())),
            (Range::new(19, 7), MetaData::String(tex.clone(), "three".to_string())),
        ]
    );
}

#[test]
fn node_ref() {
    // Create a node rule that refers to itself.
    let foo: String = "foo".to_string();
    let num: String = "num".to_string();
    let node = Rule::Sequence(Sequence {
        debug_id: 1,
        args: vec![
            Rule::Number(Number {
                debug_id: 2,
                property: Some(num.clone()),
                allow_underscore: false,
            }),
            Rule::Optional(Optional {
                debug_id: 3,
                args: vec![Rule::Sequence(Sequence {
                    debug_id: 4,
                    args: vec![
                        Rule::Whitespace(Whitespace { debug_id: 3, optional: false }),
                        Rule::Node(Node {
                            name: foo.clone(),
                            property: Some(foo.clone()),
                            debug_id: 3,
                            index: None,
                        }),
                    ],
                })],
            }),
        ],
    });

    // Replace self referencing names with direct references.
    let rule = Rule::Node(Node {
        name: foo.clone(),
        property: Some(foo.clone()),
        debug_id: 0,
        index: None,
    });
    let rules = vec![(foo.clone(), node), ("".to_string(), rule)];
    let rules = update_refs(&rules).unwrap();

    let text = "1 2 3";
    let data = parse(&rules, text).unwrap();
    assert_eq!(data.len(), 9);
    assert_eq!(&data[0].1, &MetaData::StartNode(foo.clone()));
    assert_eq!(&data[1].1, &MetaData::F64(num.clone(), 1.0f64.to_bits()));
    assert_eq!(&data[2].1, &MetaData::StartNode(foo.clone()));
    assert_eq!(&data[3].1, &MetaData::F64(num.clone(), 2.0f64.to_bits()));
    assert_eq!(&data[4].1, &MetaData::StartNode(foo.clone()));
    assert_eq!(&data[5].1, &MetaData::F64(num.clone(), 3.0f64.to_bits()));
    assert_eq!(&data[6].1, &MetaData::EndNode(foo.clone()));
    assert_eq!(&data[7].1, &MetaData::EndNode(foo.clone()));
    assert_eq!(&data[8].1, &MetaData::EndNode(foo.clone()));
}

/// A node that was never linked fails with an invalid-rule error instead
/// of reaching any referenced rule.
#[test]
fn unlinked_node_fails() {
    let rules = vec![(
        "".to_string(),
        Rule::Node(Node {
            name: "missing".to_string(),
            property: None,
            debug_id: 5,
            index: None,
        }),
    )];
    let res = parse(&rules, "x");
    assert_eq!(res, Err((Range::new(0, 0), ParseError::InvalidRule(5))));
}

/// Linking fails when a node references a name that no rule carries.
#[test]
fn link_unresolvable() {
    let rules = vec![(
        "a".to_string(),
        Rule::Node(Node {
            name: "missing".to_string(),
            property: None,
            debug_id: 9,
            index: None,
        }),
    )];
    assert_eq!(update_refs(&rules), Err(ParseError::InvalidRule(9)));
}

/// All alternatives failing reports the furthest-progress error, not the
/// last one tried.
#[test]
fn select_furthest_error() {
    let text = "ab!";
    let tok = |t: &str, id: usize| {
        Rule::Token(Token {
            debug_id: id,
            text: t.to_string(),
            not: false,
            inverted: false,
            property: None,
        })
    };
    let select = Select {
        debug_id: 0,
        // The second alternative reaches further than the first.
        args: vec![
            tok("x", 1),
            Rule::Sequence(Sequence {
                debug_id: 2,
                args: vec![tok("ab", 2), tok("c", 3)],
            }),
        ],
    };
    let chars: Vec<char> = text.chars().collect();
    let mut tokens = vec![];
    let s = TokenizerState::new();
    let refs = no_refs();
    let res = select.parse(&mut tokens, &s, &chars, 0, &refs, 100);
    assert_eq!(
        res,
        Err((Range::new(2, 0), ParseError::ExpectedToken("c".to_string(), 3)))
    );
    assert_eq!(tokens.len(), 0);
}

/// A select with no alternatives has nothing to try.
#[test]
fn select_empty() {
    let select = Select { debug_id: 3, args: vec![] };
    let chars: Vec<char> = "x".chars().collect();
    let mut tokens = vec![];
    let s = TokenizerState::new();
    let refs = no_refs();
    let res = select.parse(&mut tokens, &s, &chars, 0, &refs, 100);
    assert_eq!(
        res,
        Err((Range::new(0, 0), ParseError::ExpectedSomething(3)))
    );
}

/// The default indent settings: no indention, aligned to the first line.
#[test]
fn indent_settings_default() {
    let settings = piston_meta::IndentSettings::default();
    assert_eq!(settings.indent, 0);
    assert!(settings.align_first);
}

/// Empty input: a line-oriented rule consumes nothing and succeeds, and a
/// required token fails at the very start.
#[test]
fn empty_input() {
    let lines_rule = Rule::Lines(Lines {
        debug_id: 0,
        rule: Box::new(Rule::Number(Number {
            debug_id: 1,
            property: Some("val".to_string()),
            allow_underscore: false,
        })),
    });
    let rules = vec![("".to_string(), lines_rule)];
    assert_eq!(parse(&rules, ""), Ok(vec![]));

    let token_rule = Rule::Token(Token {
        debug_id: 2,
        text: "a".to_string(),
        not: false,
        inverted: false,
        property: None,
    });
    let rules = vec![("".to_string(), token_rule)];
    assert_eq!(
        parse(&rules, ""),
        Err((Range::new(0, 0), ParseError::ExpectedToken("a".to_string(), 2)))
    );
}
