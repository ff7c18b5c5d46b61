use vstd::prelude::*;

use crate::chars::{is_alphabetic, alphabetic_char, lemma_span_facts, scan, span, CharClass};
use crate::parser::{
    fails_in_place, lemma_skip_suffix, rest_after, result_view, stays_within, ParseResult, Parser,
    SpecResult,
};

verus! {

/// Matches exactly the text `expected` at the start of the input.
pub struct MatchLiteral {
    pub expected: &'static str,
}

pub fn match_literal(expected: &'static str) -> (p: MatchLiteral)
    ensures
        p.expected == expected,
{
    MatchLiteral { expected }
}

pub open spec fn literal_spec(e: Seq<char>, s: Seq<char>) -> SpecResult<()> {
    if e.len() <= s.len() && s.take(e.len() as int) == e {
        Ok((s.skip(e.len() as int), ()))
    } else {
        Err(s)
    }
}

impl Parser for MatchLiteral {
    type Output = ();

    open spec fn spec_parse(&self, s: Seq<char>) -> SpecResult<()> {
        literal_spec(self.expected@, s)
    }

    proof fn lemma_suffix(&self, s: Seq<char>) {
        lemma_literal(self.expected@, s);
    }

    fn parse<'a>(&self, input: &'a str) -> (r: ParseResult<'a, ()>) {
        assert(self.spec_parse(input@) == literal_spec(self.expected@, input@));
        let n = input.unicode_len();
        let m = self.expected.unicode_len();
        if m > n {
            return Err(input);
        }
        let mut i: usize = 0;
        while i < m
            invariant
                n == input@.len(),
                m == self.expected@.len(),
                m <= n,
                i <= m,
                forall|j: int| 0 <= j < i ==> input@[j] == self.expected@[j],
            decreases m - i,
        {
            if input.get_char(i) != self.expected.get_char(i) {
                proof {
                    assert(input@.take(m as int)[i as int] != self.expected@[i as int]);
                }
                return Err(input);
            }
            i = i + 1;
        }
        assert(input@.take(m as int) =~= self.expected@);
        Ok((rest_after(input, m), ()))
    }
}

pub proof fn lemma_literal(e: Seq<char>, s: Seq<char>)
    ensures
        stays_within(s, literal_spec(e, s)),
        fails_in_place(s, literal_spec(e, s)),
{
    lemma_skip_suffix(s, 0);
    assert(s.skip(0) =~= s);
    if e.len() <= s.len() {
        lemma_skip_suffix(s, e.len() as int);
    }
}

/// An identifier: an alphabetic character followed by alphanumeric characters
/// or hyphens. Produces the matched text.
pub struct Identifier;

pub open spec fn identifier_spec(s: Seq<char>) -> SpecResult<Seq<char>> {
    if s.len() > 0 && alphabetic_char(s[0]) {
        let k = 1 + span(s.skip(1), CharClass::IdentifierTail) as int;
        Ok((s.skip(k), s.take(k)))
    } else {
        Err(s)
    }
}

impl Parser for Identifier {
    type Output = String;

    open spec fn spec_parse(&self, s: Seq<char>) -> SpecResult<Seq<char>> {
        identifier_spec(s)
    }

    proof fn lemma_suffix(&self, s: Seq<char>) {
        lemma_identifier(s);
    }

    fn parse<'a>(&self, input: &'a str) -> (r: ParseResult<'a, String>) {
        assert(self.spec_parse(input@) == identifier_spec(input@));
        identifier(input)
    }
}

pub proof fn lemma_identifier(s: Seq<char>)
    ensures
        stays_within(s, identifier_spec(s)),
        fails_in_place(s, identifier_spec(s)),
{
    lemma_skip_suffix(s, 0);
    assert(s.skip(0) =~= s);
    if s.len() > 0 {
        lemma_span_facts(s.skip(1), CharClass::IdentifierTail);
        lemma_skip_suffix(s, 1 + span(s.skip(1), CharClass::IdentifierTail) as int);
    }
}

/// Parses an identifier at the start of `input`.
pub fn identifier<'a>(input: &'a str) -> (r: ParseResult<'a, String>)
    ensures
        result_view(r) == identifier_spec(input@),
{
    let n = input.unicode_len();
    if n == 0 || !is_alphabetic(input.get_char(0)) {
        return Err(input);
    }
    let k = 1 + scan(input, n, 1, CharClass::IdentifierTail);
    let matched = String::from_str(input.substring_char(0, k));
    Ok((rest_after(input, k), matched))
}

/// Text between double quotes, with no escape sequences. Produces the text
/// between the quotes.
pub struct QuotedString;

pub open spec fn quoted_spec(s: Seq<char>) -> SpecResult<Seq<char>> {
    if s.len() > 0 && s[0] == '"' {
        let k = span(s.skip(1), CharClass::NotQuote) as int;
        if 1 + k < s.len() {
            Ok((s.skip(k + 2), s.subrange(1, k + 1)))
        } else {
            Err(s)
        }
    } else {
        Err(s)
    }
}

pub fn quoted_string() -> QuotedString {
    QuotedString
}

impl Parser for QuotedString {
    type Output = String;

    open spec fn spec_parse(&self, s: Seq<char>) -> SpecResult<Seq<char>> {
        quoted_spec(s)
    }

    proof fn lemma_suffix(&self, s: Seq<char>) {
        lemma_quoted(s);
    }

    fn parse<'a>(&self, input: &'a str) -> (r: ParseResult<'a, String>) {
        assert(self.spec_parse(input@) == quoted_spec(input@));
        let n = input.unicode_len();
        if n == 0 || input.get_char(0) != '"' {
            return Err(input);
        }
        let k = scan(input, n, 1, CharClass::NotQuote);
        if 1 + k >= n {
            return Err(input);
        }
        let text = String::from_str(input.substring_char(1, k + 1));
        Ok((rest_after(input, k + 2), text))
    }
}

pub proof fn lemma_quoted(s: Seq<char>)
    ensures
        stays_within(s, quoted_spec(s)),
        fails_in_place(s, quoted_spec(s)),
{
    lemma_skip_suffix(s, 0);
    assert(s.skip(0) =~= s);
    if s.len() > 0 {
        let k = span(s.skip(1), CharClass::NotQuote) as int;
        if 1 + k < s.len() {
            lemma_skip_suffix(s, k + 2);
        }
    }
}

/// Zero or more whitespace characters, consumed and discarded. Never fails.
pub struct Space0;

/// One or more whitespace characters, consumed and discarded.
pub struct Space1;

pub fn space0() -> Space0 {
    Space0
}

pub fn space1() -> Space1 {
    Space1
}

pub open spec fn space0_spec(s: Seq<char>) -> SpecResult<()> {
    Ok((s.skip(span(s, CharClass::Whitespace) as int), ()))
}

pub open spec fn space1_spec(s: Seq<char>) -> SpecResult<()> {
    if span(s, CharClass::Whitespace) > 0 {
        space0_spec(s)
    } else {
        Err(s)
    }
}

pub proof fn lemma_space(s: Seq<char>)
    ensures
        stays_within(s, space0_spec(s)),
        stays_within(s, space1_spec(s)),
        fails_in_place(s, space1_spec(s)),
{
    lemma_skip_suffix(s, 0);
    assert(s.skip(0) =~= s);
    lemma_span_facts(s, CharClass::Whitespace);
    lemma_skip_suffix(s, span(s, CharClass::Whitespace) as int);
}

impl Parser for Space0 {
    type Output = ();

    open spec fn spec_parse(&self, s: Seq<char>) -> SpecResult<()> {
        space0_spec(s)
    }

    proof fn lemma_suffix(&self, s: Seq<char>) {
        lemma_space(s);
    }

    fn parse<'a>(&self, input: &'a str) -> (r: ParseResult<'a, ()>) {
        assert(self.spec_parse(input@) == space0_spec(input@));
        let n = input.unicode_len();
        let k = scan(input, n, 0, CharClass::Whitespace);
        assert(input@.skip(0) =~= input@);
        Ok((rest_after(input, k), ()))
    }
}

impl Parser for Space1 {
    type Output = ();

    open spec fn spec_parse(&self, s: Seq<char>) -> SpecResult<()> {
        space1_spec(s)
    }

    proof fn lemma_suffix(&self, s: Seq<char>) {
        lemma_space(s);
    }

    fn parse<'a>(&self, input: &'a str) -> (r: ParseResult<'a, ()>) {
        assert(self.spec_parse(input@) == space1_spec(input@));
        let n = input.unicode_len();
        let k = scan(input, n, 0, CharClass::Whitespace);
        assert(input@.skip(0) =~= input@);
        if k == 0 {
            return Err(input);
        }
        Ok((rest_after(input, k), ()))
    }
}

} // verus!
