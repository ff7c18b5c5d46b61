use vstd::prelude::*;

use crate::combinators::{Check, Left, Mapped, Pair, Pred, Right, Transform, ZeroOrMore};
use crate::parser::{
    same_text, is_suffix, lemma_skip_suffix, lemma_suffix_trans, result_view, stays_within, ParseResult,
    Parser, SpecResult,
};
use crate::primitives::{lemma_space, space0_spec, Identifier, MatchLiteral, QuotedString, Space0, Space1};

pub use crate::primitives::identifier;

verus! {

/// An XML-like element: a name, attributes in order, and child elements.
#[derive(Debug, PartialEq, Eq)]
pub struct Element {
    pub name: String,
    pub attributes: Vec<(String, String)>,
    pub children: Vec<Element>,
}

/// The mathematical value of an `Element`.
pub struct XmlNode {
    pub name: Seq<char>,
    pub attributes: Seq<(Seq<char>, Seq<char>)>,
    pub children: Seq<XmlNode>,
}

impl DeepView for Element {
    type V = XmlNode;

    open spec fn deep_view(&self) -> XmlNode
        decreases self,
    {
        XmlNode {
            name: self.name@,
            attributes: self.attributes.deep_view(),
            children: Seq::new(
                self.children@.len(),
                |i: int|
                    if 0 <= i < self.children@.len() {
                        self.children@[i].deep_view()
                    } else {
                        XmlNode { name: Seq::empty(), attributes: Seq::empty(), children: Seq::empty() }
                    },
            ),
        }
    }
}

pub type AttributePair = Pair<Identifier, Right<MatchLiteral, QuotedString>>;

pub type Attributes = ZeroOrMore<Right<Space1, AttributePair>>;

pub type ElementStart = Right<MatchLiteral, Pair<Identifier, Attributes>>;

pub open spec fn attribute_pair_parser() -> AttributePair {
    Pair { first: Identifier, second: Right { first: MatchLiteral { expected: "=" }, second: QuotedString } }
}

pub open spec fn attributes_parser() -> Attributes {
    ZeroOrMore { p: Right { first: Space1, second: attribute_pair_parser() } }
}

pub open spec fn element_start_parser() -> ElementStart {
    Right { first: MatchLiteral { expected: "<" }, second: Pair { first: Identifier, second: attributes_parser() } }
}

/// An attribute `name="value"`.
pub fn attribute_pair() -> (p: AttributePair)
    ensures
        p == attribute_pair_parser(),
{
    Pair { first: Identifier, second: Right { first: MatchLiteral { expected: "=" }, second: QuotedString } }
}

/// Attributes, each after at least one whitespace character.
pub fn attributes() -> (p: Attributes)
    ensures
        p == attributes_parser(),
{
    ZeroOrMore { p: Right { first: Space1, second: attribute_pair() } }
}

/// The start of an element: `<`, its name and its attributes.
pub fn element_start() -> (p: ElementStart)
    ensures
        p == element_start_parser(),
{
    Right { first: MatchLiteral { expected: "<" }, second: Pair { first: Identifier, second: attributes() } }
}

pub open spec fn empty_node(name: Seq<char>, attributes: Seq<(Seq<char>, Seq<char>)>) -> XmlNode {
    XmlNode { name, attributes, children: Seq::empty() }
}

pub type Tag = Left<ElementStart, MatchLiteral>;

/// `<name attributes/>`
pub open spec fn single_tag() -> Tag {
    Left { first: element_start_parser(), second: MatchLiteral { expected: "/>" } }
}

/// `<name attributes>`
pub open spec fn open_tag() -> Tag {
    Left { first: element_start_parser(), second: MatchLiteral { expected: ">" } }
}

/// Makes a childless element from a name and attributes.
pub struct ToElement;

impl Transform<(String, Vec<(String, String)>)> for ToElement {
    type Out = Element;

    open spec fn spec_apply(&self, a: (Seq<char>, Seq<(Seq<char>, Seq<char>)>)) -> XmlNode {
        empty_node(a.0, a.1)
    }

    fn apply(&self, a: (String, Vec<(String, String)>)) -> (b: Element) {
        let (name, attributes) = a;
        let el = Element { name, attributes, children: Vec::new() };
        assert(el.deep_view().children =~= Seq::empty());
        el
    }
}

/// A self-closing element such as `<test />`.
pub type SingleElement = Mapped<Tag, ToElement>;

/// The opening tag of an element with children, such as `<test>`, as an
/// element without children.
pub type OpenElement = Mapped<Tag, ToElement>;

pub open spec fn single_element_parser() -> SingleElement {
    Mapped { p: single_tag(), f: ToElement }
}

pub open spec fn open_element_parser() -> OpenElement {
    Mapped { p: open_tag(), f: ToElement }
}

/// A self-closing element such as `<test />`.
pub fn single_element() -> (p: SingleElement)
    ensures
        p == single_element_parser(),
{
    Mapped { p: Left { first: element_start(), second: MatchLiteral { expected: "/>" } }, f: ToElement }
}

/// The opening tag of an element with children.
pub fn open_element() -> (p: OpenElement)
    ensures
        p == open_element_parser(),
{
    Mapped { p: Left { first: element_start(), second: MatchLiteral { expected: ">" } }, f: ToElement }
}

pub type CloseTag = Right<MatchLiteral, Left<Identifier, MatchLiteral>>;

/// `</name>`
pub open spec fn close_tag() -> CloseTag {
    Right { first: MatchLiteral { expected: "</" }, second: Left { first: Identifier, second: MatchLiteral { expected: ">" } } }
}

/// Accepts exactly the name `expected`.
pub struct NameIs {
    pub expected: String,
}

impl Check<String> for NameIs {
    open spec fn spec_check(&self, a: Seq<char>) -> bool {
        a == self.expected@
    }

    fn check(&self, a: &String) -> (r: bool) {
        same_text(a.as_str(), self.expected.as_str())
    }
}

/// The closing tag `</name>` of the element named `expected_name`.
pub type CloseElement = Pred<CloseTag, NameIs>;

/// A closing tag whose name must be `expected`; on another name it fails on
/// the input it was given.
pub open spec fn close_spec(s: Seq<char>, expected: Seq<char>) -> SpecResult<Seq<char>> {
    match close_tag().spec_parse(s) {
        Err(e) => Err(e),
        Ok((rest, name)) => if name == expected {
            Ok((rest, name))
        } else {
            Err(s)
        },
    }
}

pub fn close_element(expected_name: String) -> (p: CloseElement)
    ensures
        p.p == close_tag(),
        p.f.expected@ == expected_name@,
{
    Pred {
        p: Right { first: MatchLiteral { expected: "</" }, second: Left { first: Identifier, second: MatchLiteral { expected: ">" } } },
        f: NameIs { expected: expected_name },
    }
}

/// What whitespace leaves of `s`.
pub open spec fn skip_space(s: Seq<char>) -> Seq<char> {
    space0_spec(s)->Ok_0.0
}

/// An element, self-closing or with children, with whitespace around it.
pub open spec fn element_spec(s: Seq<char>) -> SpecResult<XmlNode>
    decreases s.len(), 1nat,
{
    let s1 = skip_space(s);
    if s1.len() <= s.len() {
        let inner = match single_element_parser().spec_parse(s1) {
            Ok(x) => Ok(x),
            Err(_) => parent_spec(s1),
        };
        match inner {
            Err(e) => Err(e),
            Ok((rest, node)) => Ok((skip_space(rest), node)),
        }
    } else {
        Err(s)
    }
}

/// An opening tag, child elements, and the matching closing tag.
pub open spec fn parent_spec(s: Seq<char>) -> SpecResult<XmlNode>
    decreases s.len(), 0nat,
{
    match open_element_parser().spec_parse(s) {
        Err(e) => Err(e),
        Ok((rest, node)) => if rest.len() < s.len() {
            let (rest2, kids) = children_spec(rest);
            match close_spec(rest2, node.name) {
                Err(e) => Err(e),
                Ok((rest3, _)) => Ok((rest3, XmlNode { children: kids, ..node })),
            }
        } else {
            Err(s)
        },
    }
}

/// Elements one after another, as long as one parses and consumes input.
pub open spec fn children_spec(s: Seq<char>) -> (Seq<char>, Seq<XmlNode>)
    decreases s.len(), 2nat,
{
    match element_spec(s) {
        Ok((rest, node)) => if rest.len() < s.len() {
            let (rest2, more) = children_spec(rest);
            (rest2, seq![node] + more)
        } else {
            (s, Seq::empty())
        },
        Err(_) => (s, Seq::empty()),
    }
}

proof fn lemma_skip_space(s: Seq<char>)
    ensures
        is_suffix(skip_space(s), s),
{
    lemma_space(s);
}

proof fn lemma_element_suffix(s: Seq<char>)
    ensures
        stays_within(s, element_spec(s)),
    decreases s.len(), 1nat,
{
    let s1 = skip_space(s);
    lemma_skip_space(s);
    lemma_skip_suffix(s, 0);
    assert(s.skip(0) =~= s);
    single_element_parser().lemma_suffix(s1);
    lemma_parent_suffix(s1);
    let inner = match single_element_parser().spec_parse(s1) {
        Ok(x) => Ok(x),
        Err(_) => parent_spec(s1),
    };
    match inner {
        Err(e) => lemma_suffix_trans(e, s1, s),
        Ok((rest, node)) => {
            lemma_suffix_trans(rest, s1, s);
            lemma_skip_space(rest);
            lemma_suffix_trans(skip_space(rest), rest, s);
        },
    }
}

proof fn lemma_parent_suffix(s: Seq<char>)
    ensures
        stays_within(s, parent_spec(s)),
    decreases s.len(), 0nat,
{
    lemma_skip_suffix(s, 0);
    assert(s.skip(0) =~= s);
    open_element_parser().lemma_suffix(s);
    if let Ok((rest, node)) = open_element_parser().spec_parse(s) {
        if rest.len() < s.len() {
            lemma_children_suffix(rest);
            let rest2 = children_spec(rest).0;
            lemma_suffix_trans(rest2, rest, s);
                        close_tag().lemma_suffix(rest2);
            lemma_skip_suffix(rest2, 0);
            assert(rest2.skip(0) =~= rest2);
            match close_spec(rest2, node.name) {
                Err(e) => lemma_suffix_trans(e, rest2, s),
                Ok((rest3, _)) => lemma_suffix_trans(rest3, rest2, s),
            }
        }
    }
}

proof fn lemma_children_suffix(s: Seq<char>)
    ensures
        is_suffix(children_spec(s).0, s),
    decreases s.len(), 2nat,
{
    lemma_skip_suffix(s, 0);
    assert(s.skip(0) =~= s);
    lemma_element_suffix(s);
    if let Ok((rest, node)) = element_spec(s) {
        if rest.len() < s.len() {
            lemma_children_suffix(rest);
            lemma_suffix_trans(children_spec(rest).0, rest, s);
        }
    }
}

fn parse_element<'a>(input: &'a str) -> (r: ParseResult<'a, Element>)
    ensures
        result_view(r) == element_spec(input@),
    decreases input@.len(), 1nat,
{
    proof {
        lemma_skip_space(input@);
    }
    let s1 = match Space0.parse(input) {
        Ok((s1, _)) => s1,
        Err(e) => return Err(e),
    };
    let inner = match single_element().parse(s1) {
        Ok(x) => Ok(x),
        Err(_) => parse_parent(s1),
    };
    match inner {
        Err(e) => Err(e),
        Ok((rest, node)) => match Space0.parse(rest) {
            Ok((rest2, _)) => Ok((rest2, node)),
            Err(e) => Err(e),
        },
    }
}

fn parse_parent<'a>(input: &'a str) -> (r: ParseResult<'a, Element>)
    ensures
        result_view(r) == parent_spec(input@),
    decreases input@.len(), 0nat,
{
    match open_element().parse(input) {
        Err(e) => Err(e),
        Ok((rest, node)) => {
            if rest.unicode_len() >= input.unicode_len() {
                return Err(input);
            }
            let (rest2, kids) = parse_children(rest);
            let close = close_element(String::from_str(node.name.as_str()));
            match close.parse(rest2) {
                Err(e) => Err(e),
                Ok((rest3, _)) => {
                    let ghost kv = kids.deep_view();
                    let el = Element { name: node.name, attributes: node.attributes, children: kids };
                    assert(el.deep_view().children =~= kv);
                    Ok((rest3, el))
                },
            }
        },
    }
}

fn parse_children<'a>(input: &'a str) -> (r: (&'a str, Vec<Element>))
    ensures
        r.0@ == children_spec(input@).0,
        r.1.deep_view() == children_spec(input@).1,
    decreases input@.len(), 2nat,
{
    let mut out: Vec<Element> = Vec::new();
    let mut cur = input;
    proof {
        lemma_skip_suffix(input@, 0);
        assert(input@.skip(0) =~= input@);
    }
    loop
        invariant
            is_suffix(cur@, input@),
            children_spec(input@).0 == children_spec(cur@).0,
            children_spec(input@).1 == out.deep_view() + children_spec(cur@).1,
        ensures
            children_spec(cur@).0 == cur@,
            children_spec(cur@).1 == Seq::<XmlNode>::empty(),
        decreases cur@.len(),
    {
        let ghost before = out.deep_view();
        match parse_element(cur) {
            Ok((rest, node)) => {
                proof {
                    lemma_element_suffix(cur@);
                }
                if rest.unicode_len() < cur.unicode_len() {
                    let ghost nv = node.deep_view();
                    out.push(node);
                    proof {
                        assert(out.deep_view() =~= before.push(nv));
                        assert(before + (seq![nv] + children_spec(rest@).1) =~= out.deep_view() + children_spec(rest@).1);
                        lemma_suffix_trans(rest@, cur@, input@);
                    }
                    cur = rest;
                } else {
                    break;
                }
            },
            Err(_) => break,
        }
    }
    proof {
        assert(out.deep_view() + Seq::<XmlNode>::empty() =~= out.deep_view());
    }
    (cur, out)
}

/// An element with children: opening tag, child elements, matching closing tag.
pub struct ParentElement;

impl Parser for ParentElement {
    type Output = Element;

    open spec fn spec_parse(&self, s: Seq<char>) -> SpecResult<XmlNode> {
        parent_spec(s)
    }

    proof fn lemma_suffix(&self, s: Seq<char>) {
        lemma_parent_suffix(s);
    }

    fn parse<'a>(&self, input: &'a str) -> (r: ParseResult<'a, Element>) {
        parse_parent(input)
    }
}

/// An element, self-closing or with children, with surrounding whitespace.
pub struct XmlElement;

impl Parser for XmlElement {
    type Output = Element;

    open spec fn spec_parse(&self, s: Seq<char>) -> SpecResult<XmlNode> {
        element_spec(s)
    }

    proof fn lemma_suffix(&self, s: Seq<char>) {
        lemma_element_suffix(s);
    }

    fn parse<'a>(&self, input: &'a str) -> (r: ParseResult<'a, Element>) {
        parse_element(input)
    }
}

/// An element with children.
pub fn parent_element() -> ParentElement {
    ParentElement
}

/// An XML element.
pub fn element() -> XmlElement {
    XmlElement
}

} // verus!
