use vstd::prelude::*;

verus! {

/// What `char::is_whitespace` answers for a character.
pub uninterp spec fn whitespace_char(c: char) -> bool;

/// What `char::is_alphabetic` answers for a character.
pub uninterp spec fn alphabetic_char(c: char) -> bool;

/// What `char::is_alphanumeric` answers for a character.
pub uninterp spec fn alphanumeric_char(c: char) -> bool;

/// What `char::is_numeric` answers for a character.
pub uninterp spec fn numeric_char(c: char) -> bool;

/// Relies on `char::is_whitespace`: the Unicode White_Space property of `c`.
#[verifier::external_body]
pub(crate) fn is_whitespace(c: char) -> (r: bool)
    ensures
        r == whitespace_char(c),
{
    c.is_whitespace()
}

/// Relies on `char::is_alphabetic`: the Unicode Alphabetic property of `c`.
#[verifier::external_body]
pub(crate) fn is_alphabetic(c: char) -> (r: bool)
    ensures
        r == alphabetic_char(c),
{
    c.is_alphabetic()
}

/// Relies on `char::is_alphanumeric`: alphabetic or numeric in Unicode's sense.
#[verifier::external_body]
pub(crate) fn is_alphanumeric(c: char) -> (r: bool)
    ensures
        r == alphanumeric_char(c),
{
    c.is_alphanumeric()
}

/// Relies on `char::is_numeric`: a Unicode numeric character (Nd, Nl or No).
#[verifier::external_body]
pub(crate) fn is_numeric(c: char) -> (r: bool)
    ensures
        r == numeric_char(c),
{
    c.is_numeric()
}

/// The character classes that the primitive parsers scan over.
#[derive(Clone, Copy, Debug, PartialEq, Eq)]
pub enum CharClass {
    Whitespace,
    Numeric,
    IdentifierTail,
    NotQuote,
}

pub open spec fn in_class(class: CharClass, c: char) -> bool {
    match class {
        CharClass::Whitespace => whitespace_char(c),
        CharClass::Numeric => numeric_char(c),
        CharClass::IdentifierTail => alphanumeric_char(c) || c == '-',
        CharClass::NotQuote => c != '"',
    }
}

/// The length of the longest prefix of `s` whose characters are all in `class`.
pub open spec fn span(s: Seq<char>, class: CharClass) -> nat
    decreases s.len(),
{
    if s.len() > 0 && in_class(class, s[0]) {
        1 + span(s.drop_first(), class)
    } else {
        0
    }
}

pub proof fn lemma_span(s: Seq<char>, class: CharClass, k: int)
    requires
        0 <= k <= s.len(),
        forall|j: int| 0 <= j < k ==> in_class(class, #[trigger] s[j]),
        k == s.len() || !in_class(class, s[k]),
    ensures
        span(s, class) == k,
    decreases k,
{
    if k > 0 {
        let t = s.drop_first();
        assert forall|j: int| 0 <= j < k - 1 implies in_class(class, #[trigger] t[j]) by {
            assert(t[j] == s[j + 1]);
        }
        if k - 1 < t.len() {
            assert(t[k - 1] == s[k]);
        }
        lemma_span(t, class, k - 1);
    }
}

pub proof fn lemma_span_facts(s: Seq<char>, class: CharClass)
    ensures
        span(s, class) <= s.len(),
        forall|j: int| 0 <= j < span(s, class) ==> in_class(class, #[trigger] s[j]),
        span(s, class) < s.len() ==> !in_class(class, s[span(s, class) as int]),
    decreases s.len(),
{
    if s.len() > 0 && in_class(class, s[0]) {
        let t = s.drop_first();
        lemma_span_facts(t, class);
        assert forall|j: int| 0 <= j < span(s, class) implies in_class(class, #[trigger] s[j]) by {
            if j > 0 {
                assert(s[j] == t[j - 1]);
            }
        }
        if span(s, class) < s.len() {
            assert(s[span(s, class) as int] == t[span(t, class) as int]);
        }
    }
}

fn class_holds(class: CharClass, c: char) -> (r: bool)
    ensures
        r == in_class(class, c),
{
    match class {
        CharClass::Whitespace => is_whitespace(c),
        CharClass::Numeric => is_numeric(c),
        CharClass::IdentifierTail => is_alphanumeric(c) || c == '-',
        CharClass::NotQuote => c != '"',
    }
}

/// Counts the characters of `input` from `start` on that are in `class`.
pub fn scan(input: &str, len: usize, start: usize, class: CharClass) -> (k: usize)
    requires
        len == input@.len(),
        start <= len,
    ensures
        k == span(input@.skip(start as int), class),
        start + k <= len,
{
    let mut i: usize = start;
    while i < len && class_holds(class, input.get_char(i))
        invariant
            len == input@.len(),
            start <= i <= len,
            forall|j: int| start <= j < i ==> in_class(class, #[trigger] input@[j]),
        decreases len - i,
    {
        i = i + 1;
    }
    proof {
        let t = input@.skip(start as int);
        assert forall|j: int| 0 <= j < i - start implies in_class(class, #[trigger] t[j]) by {
            assert(t[j] == input@[j + start]);
        }
        if i < len {
            assert(t[i - start] == input@[i as int]);
        }
        lemma_span(t, class, i - start);
    }
    i - start
}

} // verus!
