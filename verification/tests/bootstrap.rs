//! Tests of the self-hosting loop: the bootstrap grammar parses a grammar
//! declaration, the converter rebuilds rules from the events, and the
//! rebuilt rules parse a document.

use piston_meta::MetaData;
use piston_meta::Rule;
use piston_meta::Sequence;
use piston_meta::Text;
use piston_meta::Token;
use piston_meta::Whitespace;
use piston_meta::bootstrap;
use piston_meta::parse;
use piston_meta::update_refs;

/// A grammar declared in the fixed notation, compiled via convert and
/// link, parses a document into the declared events.
#[test]
fn round_trip() {
    let grammar = "1 \"rule\" [\"say\" w! t?\"foo\"]";
    let events = parse(&bootstrap::rules(), grammar).unwrap();
    let mut ignored = vec![];
    let converted = bootstrap::convert(&events, &mut ignored).unwrap();
    let rules = update_refs(&converted).unwrap();

    let data = parse(&rules, "say \"Hello world!\"").unwrap();
    assert_eq!(data.len(), 1);
    match &data[0].1 {
        MetaData::String(name, val) => {
            assert_eq!(name.as_str(), "foo");
            assert_eq!(val.as_str(), "Hello world!");
        }
        other => panic!("expected a string event, got {:?}", other),
    }
}

/// The converter rebuilds the declared rule variants.
#[test]
fn convert_rebuilds_rules() {
    let grammar = "1 \"rule\" [\"say\" w! t?\"foo\"]";
    let events = parse(&bootstrap::rules(), grammar).unwrap();
    let mut ignored = vec![];
    let converted = bootstrap::convert(&events, &mut ignored).unwrap();
    assert_eq!(converted.len(), 1);
    assert_eq!(converted[0].0.as_str(), "rule");
    assert_eq!(
        converted[0].1,
        Rule::Sequence(Sequence {
            debug_id: 0,
            args: vec![
                Rule::Token(Token {
                    text: "say".to_string(),
                    not: false,
                    inverted: false,
                    property: None,
                    debug_id: 0,
                }),
                Rule::Whitespace(Whitespace { optional: false, debug_id: 0 }),
                Rule::Text(Text {
                    allow_empty: true,
                    property: Some("foo".to_string()),
                    debug_id: 0,
                }),
            ],
        })
    );
    assert_eq!(ignored.len(), 0);
}

/// A grammar using references, alternatives and repetition round-trips:
/// nested numbers in parentheses.
#[test]
fn round_trip_nested() {
    let grammar = "1 \"expr\" [{[\"(\" w? @\"expr\":\"child\" w? \")\"] $\"value\"}]";
    let events = parse(&bootstrap::rules(), grammar).unwrap();
    let mut ignored = vec![];
    let converted = bootstrap::convert(&events, &mut ignored).unwrap();
    let rules = update_refs(&converted).unwrap();

    let data = parse(&rules, "( ( 7 ) )").unwrap();
    let child = "child".to_string();
    let value = "value".to_string();
    assert_eq!(
        data,
        vec![
            (piston_meta::Range::new(2, 0), MetaData::StartNode(child.clone())),
            (piston_meta::Range::new(4, 0), MetaData::StartNode(child.clone())),
            (piston_meta::Range::new(4, 1), MetaData::F64(value, 7.0f64.to_bits())),
            (piston_meta::Range::new(4, 1), MetaData::EndNode(child.clone())),
            (piston_meta::Range::new(2, 5), MetaData::EndNode(child.clone())),
        ]
    );
}

/// A declaration that is not well formed yields no events for its line,
/// so nothing can be converted out of it.
#[test]
fn malformed_declaration() {
    let grammar = "1 \"rule\" [say]";
    let events = parse(&bootstrap::rules(), grammar).unwrap();
    assert_eq!(events.len(), 0);
    let mut ignored = vec![];
    assert!(bootstrap::convert(&events, &mut ignored).is_none());
}
