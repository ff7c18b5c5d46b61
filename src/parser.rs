use vstd::prelude::*;

verus! {

/// What a parse step returns: the unconsumed suffix and the produced value on
/// success, or the input at the point of failure.
pub type ParseResult<'a, T> = Result<(&'a str, T), &'a str>;

/// The mathematical counterpart of `ParseResult`, over character sequences.
pub type SpecResult<V> = Result<(Seq<char>, V), Seq<char>>;

pub open spec fn result_view<T: DeepView>(r: ParseResult<'_, T>) -> SpecResult<T::V> {
    match r {
        Ok((rest, v)) => Ok((rest@, v.deep_view())),
        Err(e) => Err(e@),
    }
}

/// `r` is a suffix of `s`.
pub open spec fn is_suffix(r: Seq<char>, s: Seq<char>) -> bool {
    r.len() <= s.len() && r == s.skip(s.len() - r.len())
}

/// Whatever a parse of `s` hands back (remainder or failing input) is a suffix of `s`.
pub open spec fn stays_within<V>(s: Seq<char>, r: SpecResult<V>) -> bool {
    match r {
        Ok((rest, _)) => is_suffix(rest, s),
        Err(e) => is_suffix(e, s),
    }
}

/// A failure hands back exactly the input it was given.
pub open spec fn fails_in_place<V>(s: Seq<char>, r: SpecResult<V>) -> bool {
    r is Err ==> r->Err_0 == s
}

/// Something that consumes a prefix of its input and produces a value, or fails.
pub trait Parser {
    type Output: DeepView;

    /// What `parse` returns on an input with the characters `s`.
    spec fn spec_parse(&self, s: Seq<char>) -> SpecResult<<Self::Output as DeepView>::V>;

    /// A parser only ever removes a leading part of its input.
    proof fn lemma_suffix(&self, s: Seq<char>)
        ensures
            stays_within(s, self.spec_parse(s)),
    ;

    fn parse<'a>(&self, input: &'a str) -> (r: ParseResult<'a, Self::Output>)
        ensures
            result_view(r) == self.spec_parse(input@),
    ;
}

/// The part of `s` after its first `n` characters.
pub fn rest_after<'a>(s: &'a str, n: usize) -> (r: &'a str)
    requires
        n <= s@.len(),
    ensures
        r@ == s@.skip(n as int),
{
    let len = s.unicode_len();
    s.substring_char(n, len)
}

/// Whether two strings hold the same characters.
pub fn same_text(a: &str, b: &str) -> (r: bool)
    ensures
        r == (a@ == b@),
{
    let n = a.unicode_len();
    if n != b.unicode_len() {
        return false;
    }
    let mut i: usize = 0;
    while i < n
        invariant
            n == a@.len(),
            n == b@.len(),
            i <= n,
            forall|j: int| 0 <= j < i ==> a@[j] == b@[j],
        decreases n - i,
    {
        if a.get_char(i) != b.get_char(i) {
            return false;
        }
        i = i + 1;
    }
    assert(a@ =~= b@);
    true
}

pub proof fn lemma_skip_suffix(s: Seq<char>, n: int)
    requires
        0 <= n <= s.len(),
    ensures
        is_suffix(s.skip(n), s),
{
    assert(s.skip(n) =~= s.skip(s.len() - s.skip(n).len()));
}

pub proof fn lemma_suffix_trans(a: Seq<char>, b: Seq<char>, c: Seq<char>)
    requires
        is_suffix(a, b),
        is_suffix(b, c),
    ensures
        is_suffix(a, c),
{
    assert(a =~= c.skip(c.len() - a.len()));
}

} // verus!
