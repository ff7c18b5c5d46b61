//! A small parser-combinator engine with verified contracts, and two example
//! grammars (a JSON subset and an XML subset) built on top of it.

pub mod chars;
pub mod combinators;
pub mod json;
pub mod laws;
pub mod parser;
pub mod primitives;
pub mod xml;


pub use combinators::{
    either, left, one_or_more, pair, right, whitespace_wrap, zero_or_more, Either, Left, OneOrMore,
    Pair, Right, WhitespaceWrap, ZeroOrMore,
};
pub use parser::{ParseResult, Parser};
pub use primitives::{
    identifier, match_literal, quoted_string, space0, space1, Identifier, MatchLiteral,
    QuotedString, Space0, Space1,
};
