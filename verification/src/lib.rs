//! Meta parsing for data oriented design.
//!
//! A small set of primitive grammar rules composes into arbitrary grammars,
//! which are evaluated against input text to produce a flat, range-tagged
//! event stream instead of a syntax tree. The notation used to declare
//! grammars is itself parsed by a fixed, hand-built instance of the same
//! rule engine (see `bootstrap`), so the engine is self-hosting.
//!
//! Numbers are carried in events as the bit pattern of an IEEE-754 double,
//! so that the verified core never manipulates floating point directly;
//! callers recover the double with `f64::from_bits`.

use vstd::prelude::*;

pub mod balance;
pub mod bootstrap;
pub mod diagnostics;
pub mod eval;
pub mod indent_settings;
pub mod linker;
pub mod lines;
pub mod node;
pub mod number;
pub mod optional;
pub mod parse_error;
pub mod parse_error_handler;
pub mod range;
pub mod repeat;
pub mod rule;
pub mod scanner;
pub mod select;
pub mod sequence;
pub mod text;
pub mod token;
pub mod tokenizer;
pub mod until_any_or_whitespace;
pub mod whitespace;

pub use diagnostics::err_update;
pub use diagnostics::ret_err;
pub use indent_settings::IndentSettings;
pub use linker::update_refs;
pub use lines::Lines;
pub use node::Node;
pub use number::Number;
pub use optional::Optional;
pub use parse_error::ParseError;
pub use parse_error_handler::ParseErrorHandler;
pub use range::Range;
pub use repeat::Repeat;
pub use rule::Rule;
pub use rule::parse;
pub use select::Select;
pub use sequence::Sequence;
pub use text::Text;
pub use token::Token;
pub use tokenizer::TokenizerState;
pub use tokenizer::read_data;
pub use until_any_or_whitespace::UntilAnyOrWhitespace;
pub use whitespace::Whitespace;

verus! {

/// The type of debug id used to track down errors in rules.
pub type DebugId = usize;

/// Represents meta data: one entry of the event stream that a parse emits.
#[derive(Clone, Debug, PartialEq)]
pub enum MetaData {
    /// Starts a node.
    StartNode(String),
    /// Ends a node.
    EndNode(String),
    /// Sets a bool property.
    Bool(String, bool),
    /// Sets a number property, stored as the bit pattern of an IEEE-754
    /// double.
    F64(String, u64),
    /// Sets a string property.
    String(String, String),
}

} // verus!
