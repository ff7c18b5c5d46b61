use vstd::prelude::*;

use crate::chars::{lemma_span_facts, scan, span, CharClass};
use crate::combinators::{
    lemma_pair_suffix, lemma_star_suffix, pair_spec, star, AndThen, Continuation, OneOrMore, Left, Pair, Right, WhitespaceWrap, ZeroOrMore,
};
use crate::parser::{
    same_text, lemma_skip_suffix, lemma_suffix_trans, rest_after, result_view, stays_within, ParseResult,
    Parser, SpecResult,
};
use crate::primitives::{lemma_literal, lemma_quoted, literal_spec, quoted_spec, MatchLiteral, QuotedString};

verus! {

/// A JSON-like value.
#[derive(Debug, PartialEq, Eq)]
pub enum Element {
    Null,
    Bool(bool),
    Number(i32),
    String(String),
    Array(Vec<Element>),
    /// Members in the order their keys first appeared; keys are distinct.
    Object(Vec<(String, Element)>),
}

/// The mathematical value of an `Element`.
pub enum JsonValue {
    Null,
    Bool(bool),
    Number(int),
    Str(Seq<char>),
    Array(Seq<JsonValue>),
    Object(Seq<(Seq<char>, JsonValue)>),
}

impl DeepView for Element {
    type V = JsonValue;

    open spec fn deep_view(&self) -> JsonValue
        decreases self,
    {
        match self {
            Element::Null => JsonValue::Null,
            Element::Bool(b) => JsonValue::Bool(*b),
            Element::Number(n) => JsonValue::Number(*n as int),
            Element::String(s) => JsonValue::Str(s@),
            Element::Array(v) => JsonValue::Array(
                Seq::new(v@.len(), |i: int| if 0 <= i < v@.len() { v@[i].deep_view() } else { JsonValue::Null }),
            ),
            Element::Object(v) => JsonValue::Object(
                Seq::new(
                    v@.len(),
                    |i: int| if 0 <= i < v@.len() { (v@[i].0@, v@[i].1.deep_view()) } else { (Seq::empty(), JsonValue::Null) },
                ),
            ),
        }
    }
}

/// The literal `null`.
pub fn null<'a>(input: &'a str) -> (r: ParseResult<'a, ()>)
    ensures
        result_view(r) == literal_spec("null"@, input@),
{
    MatchLiteral { expected: "null" }.parse(input)
}

pub open spec fn boolean_spec(s: Seq<char>) -> SpecResult<bool> {
    match literal_spec("true"@, s) {
        Ok((rest, _)) => Ok((rest, true)),
        Err(_) => match literal_spec("false"@, s) {
            Ok((rest, _)) => Ok((rest, false)),
            Err(e) => Err(e),
        },
    }
}

/// The literal `true` or `false`.
pub fn boolean<'a>(input: &'a str) -> (r: ParseResult<'a, bool>)
    ensures
        result_view(r) == boolean_spec(input@),
{
    match (MatchLiteral { expected: "true" }).parse(input) {
        Ok((rest, _)) => Ok((rest, true)),
        Err(_) => match (MatchLiteral { expected: "false" }).parse(input) {
            Ok((rest, _)) => Ok((rest, false)),
            Err(e) => Err(e),
        },
    }
}

pub open spec fn is_digit(c: char) -> bool {
    '0' <= c <= '9'
}

/// The number that a sequence of decimal digits writes.
pub open spec fn decimal_value(s: Seq<char>) -> int
    decreases s.len(),
{
    if s.len() == 0 {
        0
    } else {
        decimal_value(s.drop_last()) * 10 + (s.last() as int - '0' as int)
    }
}

pub open spec fn i32_text(t: Seq<char>) -> bool {
    &&& t.len() > 0
    &&& forall|j: int| 0 <= j < t.len() ==> is_digit(#[trigger] t[j])
    &&& decimal_value(t) <= i32::MAX
}

/// The leading run of numeric characters, read as an `i32`: it must be made of
/// decimal digits and its value must fit.
pub open spec fn number_spec(s: Seq<char>) -> SpecResult<i32> {
    let t = s.take(span(s, CharClass::Numeric) as int);
    if i32_text(t) {
        Ok((s.skip(t.len() as int), decimal_value(t) as i32))
    } else {
        Err(s)
    }
}

/// Reads the decimal digits `input[0..k]` as an `i32`, if they are digits and fit.
fn read_i32(input: &str, k: usize) -> (r: Option<i32>)
    requires
        k <= input@.len(),
    ensures
        r is Some <==> i32_text(input@.take(k as int)),
        r is Some ==> r->0 as int == decimal_value(input@.take(k as int)),
{
    if k == 0 {
        return None;
    }
    let ghost t = input@.take(k as int);
    let mut value: i32 = 0;
    let mut i: usize = 0;
    while i < k
        invariant
            k <= input@.len(),
            t == input@.take(k as int),
            i <= k,
            forall|j: int| 0 <= j < i ==> is_digit(#[trigger] t[j]),
            value as int == decimal_value(t.take(i as int)),
            0 <= value,
        decreases k - i,
    {
        let c = input.get_char(i);
        assert(t[i as int] == c);
        assert(t.take(i as int + 1).drop_last() =~= t.take(i as int));
        if c < '0' || c > '9' {
            return None;
        }
        let d = (c as u32 - '0' as u32) as i32;
        if value > (i32::MAX - d) / 10 {
            proof {
                if i32_text(t) {
                    lemma_decimal_grows(t, i as int + 1);
                    assert(value * 10 + d > i32::MAX) by (nonlinear_arith)
                        requires
                            value > (i32::MAX - d) / 10,
                            0 <= d <= 9,
                    ;
                }
            }
            return None;
        }
        value = value * 10 + d;
        i = i + 1;
    }
    assert(t.take(k as int) =~= t);
    Some(value)
}

/// A longer run of digits never reads as a smaller number.
proof fn lemma_decimal_grows(t: Seq<char>, i: int)
    requires
        0 <= i <= t.len(),
        forall|j: int| 0 <= j < t.len() ==> is_digit(#[trigger] t[j]),
    ensures
        decimal_value(t.take(i)) <= decimal_value(t),
    decreases t.len() - i,
{
    if i < t.len() {
        lemma_decimal_grows(t, i + 1);
        assert(t.take(i + 1).drop_last() =~= t.take(i));
        assert(t.take(i + 1).last() == t[i]);
        assert(is_digit(t[i]));
        assert forall|j: int| 0 <= j < t.take(i).len() implies is_digit(#[trigger] t.take(i)[j]) by {
            assert(t.take(i)[j] == t[j]);
        }
        lemma_decimal_nonneg(t.take(i));
    } else {
        assert(t.take(i) =~= t);
    }
}

proof fn lemma_decimal_nonneg(t: Seq<char>)
    requires
        forall|j: int| 0 <= j < t.len() ==> is_digit(#[trigger] t[j]),
    ensures
        decimal_value(t) >= 0,
    decreases t.len(),
{
    if t.len() > 0 {
        assert(is_digit(t[t.len() - 1]));
        lemma_decimal_nonneg(t.drop_last());
    }
}

/// A run of numeric characters read as an integer.
pub fn number<'a>(input: &'a str) -> (r: ParseResult<'a, i32>)
    ensures
        result_view(r) == number_spec(input@),
{
    let n = input.unicode_len();
    let k = scan(input, n, 0, CharClass::Numeric);
    assert(input@.skip(0) =~= input@);
    match read_i32(input, k) {
        Some(value) => Ok((rest_after(input, k), value)),
        None => Err(input),
    }
}

pub proof fn lemma_number(s: Seq<char>)
    ensures
        stays_within(s, number_spec(s)),
        number_spec(s) is Err ==> number_spec(s)->Err_0 == s,
{
    lemma_skip_suffix(s, 0);
    assert(s.skip(0) =~= s);
    lemma_span_facts(s, CharClass::Numeric);
    lemma_skip_suffix(s, span(s, CharClass::Numeric) as int);
}

/// One scalar value: `null`, a boolean, a number or a quoted string, tried in
/// that order.
pub open spec fn element_spec(s: Seq<char>) -> SpecResult<JsonValue> {
    match literal_spec("null"@, s) {
        Ok((rest, _)) => Ok((rest, JsonValue::Null)),
        Err(_) => match boolean_spec(s) {
            Ok((rest, b)) => Ok((rest, JsonValue::Bool(b))),
            Err(_) => match number_spec(s) {
                Ok((rest, n)) => Ok((rest, JsonValue::Number(n as int))),
                Err(_) => match quoted_spec(s) {
                    Ok((rest, t)) => Ok((rest, JsonValue::Str(t))),
                    Err(e) => Err(e),
                },
            },
        },
    }
}

pub proof fn lemma_element(s: Seq<char>)
    ensures
        stays_within(s, element_spec(s)),
        element_spec(s) is Err ==> element_spec(s)->Err_0 == s,
{
    lemma_literal("null"@, s);
    lemma_literal("true"@, s);
    lemma_literal("false"@, s);
    lemma_number(s);
    lemma_quoted(s);
}

/// Parses one scalar value.
pub fn element<'a>(input: &'a str) -> (r: ParseResult<'a, Element>)
    ensures
        result_view(r) == element_spec(input@),
{
    if let Ok((rest, _)) = null(input) {
        return Ok((rest, Element::Null));
    }
    if let Ok((rest, b)) = boolean(input) {
        return Ok((rest, Element::Bool(b)));
    }
    if let Ok((rest, n)) = number(input) {
        return Ok((rest, Element::Number(n)));
    }
    match QuotedString.parse(input) {
        Ok((rest, t)) => Ok((rest, Element::String(t))),
        Err(e) => Err(e),
    }
}

/// `element` as a parser value.
pub struct ElementParser;

impl Parser for ElementParser {
    type Output = Element;

    open spec fn spec_parse(&self, s: Seq<char>) -> SpecResult<JsonValue> {
        element_spec(s)
    }

    proof fn lemma_suffix(&self, s: Seq<char>) {
        lemma_element(s);
    }

    fn parse<'a>(&self, input: &'a str) -> (r: ParseResult<'a, Element>) {
        element(input)
    }
}

/// A colon, with whitespace around it, then a value.
pub open spec fn colon_element() -> Right<WhitespaceWrap<MatchLiteral>, ElementParser> {
    Right { first: WhitespaceWrap { p: MatchLiteral { expected: ":" } }, second: ElementParser }
}

/// A member: a quoted key, a colon and a value.
pub open spec fn element_pair_spec(s: Seq<char>) -> SpecResult<(Seq<char>, JsonValue)> {
    match quoted_spec(s) {
        Err(e) => Err(e),
        Ok((rest, name)) => match colon_element().spec_parse(rest) {
            Err(e) => Err(e),
            Ok((rest2, value)) => Ok((rest2, (name, value))),
        },
    }
}

/// Given a parsed key, parses the colon and the value that follow it.
pub struct ValueAfterKey;

impl Continuation<String> for ValueAfterKey {
    type Out = (String, Element);

    open spec fn spec_continue(&self, a: Seq<char>, s: Seq<char>) -> SpecResult<(Seq<char>, JsonValue)> {
        match colon_element().spec_parse(s) {
            Err(e) => Err(e),
            Ok((rest, value)) => Ok((rest, (a, value))),
        }
    }

    proof fn lemma_continue_suffix(&self, a: Seq<char>, s: Seq<char>) {
        colon_element().lemma_suffix(s);
    }

    fn run<'a>(&self, a: String, input: &'a str) -> (r: ParseResult<'a, (String, Element)>) {
        let p = Right { first: WhitespaceWrap { p: MatchLiteral { expected: ":" } }, second: ElementParser };
        match p.parse(input) {
            Err(e) => Err(e),
            Ok((rest, value)) => Ok((rest, (a, value))),
        }
    }
}

/// Parses one member `"key": value`.
pub fn element_pair<'a>(input: &'a str) -> (r: ParseResult<'a, (String, Element)>)
    ensures
        result_view(r) == element_pair_spec(input@),
{
    AndThen { p: QuotedString, k: ValueAfterKey }.parse(input)
}

/// `element_pair` as a parser value.
pub struct ElementPairParser;

impl Parser for ElementPairParser {
    type Output = (String, Element);

    open spec fn spec_parse(&self, s: Seq<char>) -> SpecResult<(Seq<char>, JsonValue)> {
        element_pair_spec(s)
    }

    proof fn lemma_suffix(&self, s: Seq<char>) {
        lemma_quoted(s);
        if let Ok((rest, _)) = quoted_spec(s) {
            colon_element().lemma_suffix(rest);
        }
        lemma_pair_suffix(s, quoted_spec(s), |t: Seq<char>| colon_element().spec_parse(t));
    }

    fn parse<'a>(&self, input: &'a str) -> (r: ParseResult<'a, (String, Element)>) {
        element_pair(input)
    }
}

/// Members, each followed by any number of commas.
pub open spec fn element_pairs_parser() -> OneOrMore<Left<ElementPairParser, ZeroOrMore<WhitespaceWrap<MatchLiteral>>>> {
    OneOrMore {
        p: Left {
            first: ElementPairParser,
            second: ZeroOrMore { p: WhitespaceWrap { p: MatchLiteral { expected: "," } } },
        },
    }
}

/// Parses one or more members, each followed by any number of commas.
pub fn element_pairs<'a>(input: &'a str) -> (r: ParseResult<'a, Vec<(String, Element)>>)
    ensures
        result_view(r) == element_pairs_parser().spec_parse(input@),
{
    let p = OneOrMore {
        p: Left {
            first: ElementPairParser,
            second: ZeroOrMore { p: WhitespaceWrap { p: MatchLiteral { expected: "," } } },
        },
    };
    p.parse(input)
}

/// An opening brace, with whitespace around it, then the first member.
pub open spec fn object_start_parser() -> Right<WhitespaceWrap<MatchLiteral>, ElementPairParser> {
    Right { first: WhitespaceWrap { p: MatchLiteral { expected: "{" } }, second: ElementPairParser }
}

/// Parses `{` and the first member.
pub fn object_start<'a>(input: &'a str) -> (r: ParseResult<'a, (String, Element)>)
    ensures
        result_view(r) == object_start_parser().spec_parse(input@),
{
    let p = Right { first: WhitespaceWrap { p: MatchLiteral { expected: "{" } }, second: ElementPairParser };
    p.parse(input)
}

/// A comma, with whitespace around it, then a member.
pub open spec fn comma_pair_parser() -> Pair<WhitespaceWrap<MatchLiteral>, ElementPairParser> {
    Pair { first: WhitespaceWrap { p: MatchLiteral { expected: "," } }, second: ElementPairParser }
}

/// The first index at which `members` holds the key `k`, or -1.
pub open spec fn key_position(members: Seq<(Seq<char>, JsonValue)>, k: Seq<char>) -> int
    decreases members.len(),
{
    if members.len() == 0 {
        -1
    } else if members[0].0 == k {
        0
    } else {
        let j = key_position(members.drop_first(), k);
        if j < 0 {
            -1
        } else {
            j + 1
        }
    }
}

/// Adds a member: a key already present has its value replaced in place,
/// a new key goes at the end.
pub open spec fn insert_member(
    members: Seq<(Seq<char>, JsonValue)>,
    m: (Seq<char>, JsonValue),
) -> Seq<(Seq<char>, JsonValue)> {
    let i = key_position(members, m.0);
    if i < 0 {
        members.push(m)
    } else {
        members.update(i, m)
    }
}

/// Adds each of `ms` in turn.
pub open spec fn insert_all(
    members: Seq<(Seq<char>, JsonValue)>,
    ms: Seq<(Seq<char>, JsonValue)>,
) -> Seq<(Seq<char>, JsonValue)>
    decreases ms.len(),
{
    if ms.len() == 0 {
        members
    } else {
        insert_all(insert_member(members, ms[0]), ms.drop_first())
    }
}

/// No two members share a key.
pub open spec fn unique_keys(members: Seq<(Seq<char>, JsonValue)>) -> bool {
    forall|i: int, j: int| 0 <= i < j < members.len() ==> (#[trigger] members[i]).0 != (#[trigger] members[j]).0
}

pub proof fn lemma_key_position_found(members: Seq<(Seq<char>, JsonValue)>, k: Seq<char>)
    ensures
        key_position(members, k) < members.len(),
        key_position(members, k) >= 0 ==> members[key_position(members, k)].0 == k,
        key_position(members, k) < 0 ==> forall|i: int| 0 <= i < members.len() ==> (#[trigger] members[i]).0 != k,
    decreases members.len(),
{
    if members.len() > 0 {
        let t = members.drop_first();
        lemma_key_position_found(t, k);
        if members[0].0 != k {
            assert forall|i: int| 0 < i < members.len() implies members[i] == t[i - 1] by {}
        }
    }
}

/// Adding members one by one keeps keys distinct.
pub proof fn lemma_insert_all_unique(members: Seq<(Seq<char>, JsonValue)>, ms: Seq<(Seq<char>, JsonValue)>)
    requires
        unique_keys(members),
    ensures
        unique_keys(insert_all(members, ms)),
    decreases ms.len(),
{
    if ms.len() > 0 {
        lemma_key_position_found(members, ms[0].0);
        let next = insert_member(members, ms[0]);
        assert(unique_keys(next)) by {
            let i = key_position(members, ms[0].0);
            if i < 0 {
                assert forall|x: int, y: int| 0 <= x < y < next.len() implies (#[trigger] next[x]).0 != (#[trigger] next[y]).0 by {
                    if y == members.len() {
                        assert(next[x] == members[x]);
                    } else {
                        assert(next[x] == members[x] && next[y] == members[y]);
                    }
                }
            } else {
                assert forall|x: int, y: int| 0 <= x < y < next.len() implies (#[trigger] next[x]).0 != (#[trigger] next[y]).0 by {
                    assert(next[x].0 == members[x].0);
                    assert(next[y].0 == members[y].0);
                }
            }
        }
        lemma_insert_all_unique(next, ms.drop_first());
    }
}

pub open spec fn second_values(
    xs: Seq<((), (Seq<char>, JsonValue))>,
) -> Seq<(Seq<char>, JsonValue)> {
    xs.map_values(|x: ((), (Seq<char>, JsonValue))| x.1)
}

/// The members of an object body: the first member, then every further one
/// that follows a comma, with later keys overriding earlier ones.
pub open spec fn object_body_spec(s: Seq<char>) -> SpecResult<Seq<(Seq<char>, JsonValue)>> {
    match object_start_parser().spec_parse(s) {
        Err(e) => Err(e),
        Ok((rest, first)) => {
            let (rest2, more) = star(comma_pair_parser(), rest);
            Ok((rest2, insert_all(Seq::empty(), seq![first] + second_values(more))))
        },
    }
}

proof fn lemma_key_position(members: Seq<(Seq<char>, JsonValue)>, k: Seq<char>, i: int)
    requires
        0 <= i <= members.len(),
        forall|j: int| 0 <= j < i ==> (#[trigger] members[j]).0 != k,
        i == members.len() || members[i].0 == k,
    ensures
        key_position(members, k) == (if i == members.len() { -1 } else { i }),
    decreases i,
{
    if i > 0 {
        let t = members.drop_first();
        assert(members[0].0 != k);
        assert forall|j: int| 0 <= j < i - 1 implies (#[trigger] t[j]).0 != k by {
            assert(t[j] == members[j + 1]);
        }
        if i < members.len() {
            assert(t[i - 1] == members[i]);
        }
        lemma_key_position(t, k, i - 1);
    }
}

fn add_member(members: &mut Vec<(String, Element)>, m: (String, Element))
    ensures
        final(members).deep_view() == insert_member(old(members).deep_view(), m.deep_view()),
{
    let ghost old_view = members.deep_view();
    let n = members.len();
    let mut i: usize = 0;
    while i < n && !same_text(members[i].0.as_str(), m.0.as_str())
        invariant
            n == members@.len(),
            old_view == members.deep_view(),
            i <= n,
            forall|j: int| 0 <= j < i ==> (#[trigger] old_view[j]).0 != m.0@,
        decreases n - i,
    {
        i = i + 1;
    }
    proof {
        lemma_key_position(old_view, m.0@, i as int);
    }
    let ghost mv = m.deep_view();
    if i < n {
        members[i] = m;
        assert(members.deep_view() =~= old_view.update(i as int, mv));
    } else {
        members.push(m);
        assert(members.deep_view() =~= old_view.push(mv));
    }
}

/// Parses `{`, the first member and every further member after a comma.
pub fn object_body<'a>(input: &'a str) -> (r: ParseResult<'a, Vec<(String, Element)>>)
    ensures
        result_view(r) == object_body_spec(input@),
        r is Ok ==> unique_keys(r->Ok_0.1.deep_view()),
{
    match object_start(input) {
        Err(e) => Err(e),
        Ok((rest, first)) => {
            let p = Pair { first: WhitespaceWrap { p: MatchLiteral { expected: "," } }, second: ElementPairParser };
            let (rest2, mut more) = match p_star(&p, rest) {
                Ok(x) => x,
                Err(e) => return Err(e),
            };
            let ghost target = insert_all(Seq::empty(), seq![first.deep_view()] + second_values(more.deep_view()));
            let mut members: Vec<(String, Element)> = Vec::new();
            let ghost fv = first.deep_view();
            proof {
                lemma_insert_all_unique(Seq::empty(), seq![fv] + second_values(more.deep_view()));
                let ms = seq![fv] + second_values(more.deep_view());
                assert(ms.drop_first() =~= second_values(more.deep_view()));
                assert(ms[0] == fv);
                assert(members.deep_view() =~= Seq::<(Seq<char>, JsonValue)>::empty());
            }
            add_member(&mut members, first);
            while more.len() > 0
                invariant
                    insert_all(members.deep_view(), second_values(more.deep_view())) == target,
                decreases more.len(),
            {
                let ghost before = second_values(more.deep_view());
                let (_, m) = more.remove(0);
                proof {
                    assert(second_values(more.deep_view()) =~= before.drop_first());
                }
                add_member(&mut members, m);
            }
            proof {
                assert(second_values(more.deep_view()) =~= Seq::empty());
            }
            Ok((rest2, members))
        },
    }
}

fn p_star<'a>(
    p: &Pair<WhitespaceWrap<MatchLiteral>, ElementPairParser>,
    input: &'a str,
) -> (r: ParseResult<'a, Vec<((), (String, Element))>>)
    requires
        *p == comma_pair_parser(),
    ensures
        result_view(r) == Ok::<(Seq<char>, Seq<((), (Seq<char>, JsonValue))>), Seq<char>>(star(comma_pair_parser(), input@)),
{
    let z = ZeroOrMore { p: Pair { first: WhitespaceWrap { p: MatchLiteral { expected: "," } }, second: ElementPairParser } };
    z.parse(input)
}

/// The members of a parsed object body have distinct keys.
pub proof fn lemma_object_body_unique(s: Seq<char>)
    ensures
        object_body_spec(s) is Ok ==> unique_keys(object_body_spec(s)->Ok_0.1),
{
    if let Ok((rest, first)) = object_start_parser().spec_parse(s) {
        lemma_insert_all_unique(Seq::empty(), seq![first] + second_values(star(comma_pair_parser(), rest).1));
    }
}

/// `object_body` as a parser value.
pub struct ObjectBodyParser;

impl Parser for ObjectBodyParser {
    type Output = Vec<(String, Element)>;

    open spec fn spec_parse(&self, s: Seq<char>) -> SpecResult<Seq<(Seq<char>, JsonValue)>> {
        object_body_spec(s)
    }

    proof fn lemma_suffix(&self, s: Seq<char>) {
        object_start_parser().lemma_suffix(s);
        if let Ok((rest, _)) = object_start_parser().spec_parse(s) {
            lemma_star_suffix(comma_pair_parser(), rest);
            lemma_suffix_trans(star(comma_pair_parser(), rest).0, rest, s);
        }
    }

    fn parse<'a>(&self, input: &'a str) -> (r: ParseResult<'a, Vec<(String, Element)>>) {
        object_body(input)
    }
}

/// An object body followed by a closing brace, with whitespace around it.
pub open spec fn object_parser() -> Left<ObjectBodyParser, WhitespaceWrap<MatchLiteral>> {
    Left { first: ObjectBodyParser, second: WhitespaceWrap { p: MatchLiteral { expected: "}" } } }
}

/// Parses an object `{ "key": value, ... }` into its members.
pub fn object<'a>(input: &'a str) -> (r: ParseResult<'a, Vec<(String, Element)>>)
    ensures
        result_view(r) == object_parser().spec_parse(input@),
        r is Ok ==> unique_keys(r->Ok_0.1.deep_view()),
{
    proof {
        lemma_object_body_unique(input@);
    }
    let p = Left { first: ObjectBodyParser, second: WhitespaceWrap { p: MatchLiteral { expected: "}" } } };
    p.parse(input)
}

} // verus!
