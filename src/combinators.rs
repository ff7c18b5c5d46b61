use vstd::prelude::*;

use crate::parser::{
    is_suffix, lemma_skip_suffix, lemma_suffix_trans, result_view, stays_within, ParseResult,
    Parser, SpecResult,
};
use crate::primitives::{lemma_space, space0_spec, Space0};

verus! {

/// Runs `first`, then `second` on what `first` left; produces both values.
pub struct Pair<PA, PB> {
    pub first: PA,
    pub second: PB,
}

/// Like `Pair`, keeping the first value only.
pub struct Left<PA, PB> {
    pub first: PA,
    pub second: PB,
}

/// Like `Pair`, keeping the second value only.
pub struct Right<PA, PB> {
    pub first: PA,
    pub second: PB,
}

/// Ordered choice: `first`, and `second` on the same input where `first` fails.
pub struct Either<PA, PB> {
    pub first: PA,
    pub second: PB,
}

/// Applies `p` as long as it succeeds and consumes input; never fails.
pub struct ZeroOrMore<P> {
    pub p: P,
}

/// Like `ZeroOrMore`, failing where the first application fails.
pub struct OneOrMore<P> {
    pub p: P,
}

/// Runs `p` with any whitespace before and after it consumed and discarded.
pub struct WhitespaceWrap<P> {
    pub p: P,
}

pub fn pair<PA: Parser, PB: Parser>(first: PA, second: PB) -> (r: Pair<PA, PB>)
    ensures
        r.first == first && r.second == second,
{
    Pair { first, second }
}

pub fn left<PA: Parser, PB: Parser>(first: PA, second: PB) -> (r: Left<PA, PB>)
    ensures
        r.first == first && r.second == second,
{
    Left { first, second }
}

pub fn right<PA: Parser, PB: Parser>(first: PA, second: PB) -> (r: Right<PA, PB>)
    ensures
        r.first == first && r.second == second,
{
    Right { first, second }
}

pub fn either<PA: Parser, PB: Parser<Output = PA::Output>>(first: PA, second: PB) -> (r: Either<PA, PB>)
    ensures
        r.first == first && r.second == second,
{
    Either { first, second }
}

pub fn zero_or_more<P: Parser>(p: P) -> (r: ZeroOrMore<P>)
    ensures
        r.p == p,
{
    ZeroOrMore { p }
}

pub fn one_or_more<P: Parser>(p: P) -> (r: OneOrMore<P>)
    ensures
        r.p == p,
{
    OneOrMore { p }
}

pub fn whitespace_wrap<P: Parser>(p: P) -> (r: WhitespaceWrap<P>)
    ensures
        r.p == p,
{
    WhitespaceWrap { p }
}

/// Sequencing over results: `r1`, then `f2` on its remainder.
pub open spec fn pair_spec<A, B>(r1: SpecResult<A>, f2: spec_fn(Seq<char>) -> SpecResult<B>) -> SpecResult<(A, B)> {
    match r1 {
        Err(e) => Err(e),
        Ok((rest, a)) => match f2(rest) {
            Err(e) => Err(e),
            Ok((rest2, b)) => Ok((rest2, (a, b))),
        },
    }
}

pub open spec fn first_of<A, B>(r: SpecResult<(A, B)>) -> SpecResult<A> {
    match r {
        Err(e) => Err(e),
        Ok((rest, v)) => Ok((rest, v.0)),
    }
}

pub open spec fn second_of<A, B>(r: SpecResult<(A, B)>) -> SpecResult<B> {
    match r {
        Err(e) => Err(e),
        Ok((rest, v)) => Ok((rest, v.1)),
    }
}

pub proof fn lemma_pair_suffix<A, B>(s: Seq<char>, r1: SpecResult<A>, f2: spec_fn(Seq<char>) -> SpecResult<B>)
    requires
        stays_within(s, r1),
        r1 is Ok ==> stays_within(r1->Ok_0.0, f2(r1->Ok_0.0)),
    ensures
        stays_within(s, pair_spec(r1, f2)),
        stays_within(s, first_of(pair_spec(r1, f2))),
        stays_within(s, second_of(pair_spec(r1, f2))),
{
    if let Ok((rest, a)) = r1 {
        match f2(rest) {
            Err(e) => lemma_suffix_trans(e, rest, s),
            Ok((rest2, b)) => lemma_suffix_trans(rest2, rest, s),
        }
    }
}

fn run_pair<'a, PA: Parser, PB: Parser>(first: &PA, second: &PB, input: &'a str) -> (r: ParseResult<'a, (PA::Output, PB::Output)>)
    ensures
        result_view(r) == pair_spec(first.spec_parse(input@), |s: Seq<char>| second.spec_parse(s)),
{
    match first.parse(input) {
        Err(e) => Err(e),
        Ok((rest, a)) => match second.parse(rest) {
            Err(e) => Err(e),
            Ok((rest2, b)) => Ok((rest2, (a, b))),
        },
    }
}

impl<PA: Parser, PB: Parser> Parser for Pair<PA, PB> {
    type Output = (PA::Output, PB::Output);

    open spec fn spec_parse(&self, s: Seq<char>) -> SpecResult<
        (<PA::Output as DeepView>::V, <PB::Output as DeepView>::V),
    > {
        pair_spec(self.first.spec_parse(s), |t: Seq<char>| self.second.spec_parse(t))
    }

    proof fn lemma_suffix(&self, s: Seq<char>) {
        self.first.lemma_suffix(s);
        if let Ok((rest, _)) = self.first.spec_parse(s) {
            self.second.lemma_suffix(rest);
        }
        lemma_pair_suffix(s, self.first.spec_parse(s), |t: Seq<char>| self.second.spec_parse(t));
    }

    fn parse<'a>(&self, input: &'a str) -> (r: ParseResult<'a, (PA::Output, PB::Output)>) {
        run_pair(&self.first, &self.second, input)
    }
}

impl<PA: Parser, PB: Parser> Parser for Left<PA, PB> {
    type Output = PA::Output;

    open spec fn spec_parse(&self, s: Seq<char>) -> SpecResult<<PA::Output as DeepView>::V> {
        first_of(pair_spec(self.first.spec_parse(s), |t: Seq<char>| self.second.spec_parse(t)))
    }

    proof fn lemma_suffix(&self, s: Seq<char>) {
        self.first.lemma_suffix(s);
        if let Ok((rest, _)) = self.first.spec_parse(s) {
            self.second.lemma_suffix(rest);
        }
        lemma_pair_suffix(s, self.first.spec_parse(s), |t: Seq<char>| self.second.spec_parse(t));
    }

    fn parse<'a>(&self, input: &'a str) -> (r: ParseResult<'a, PA::Output>) {
        match run_pair(&self.first, &self.second, input) {
            Err(e) => Err(e),
            Ok((rest, v)) => Ok((rest, v.0)),
        }
    }
}

impl<PA: Parser, PB: Parser> Parser for Right<PA, PB> {
    type Output = PB::Output;

    open spec fn spec_parse(&self, s: Seq<char>) -> SpecResult<<PB::Output as DeepView>::V> {
        second_of(pair_spec(self.first.spec_parse(s), |t: Seq<char>| self.second.spec_parse(t)))
    }

    proof fn lemma_suffix(&self, s: Seq<char>) {
        self.first.lemma_suffix(s);
        if let Ok((rest, _)) = self.first.spec_parse(s) {
            self.second.lemma_suffix(rest);
        }
        lemma_pair_suffix(s, self.first.spec_parse(s), |t: Seq<char>| self.second.spec_parse(t));
    }

    fn parse<'a>(&self, input: &'a str) -> (r: ParseResult<'a, PB::Output>) {
        match run_pair(&self.first, &self.second, input) {
            Err(e) => Err(e),
            Ok((rest, v)) => Ok((rest, v.1)),
        }
    }
}

/// Ordered choice over results: `r1` where it succeeds, else `r2`.
pub open spec fn either_spec<V>(r1: SpecResult<V>, r2: SpecResult<V>) -> SpecResult<V> {
    match r1 {
        Ok(x) => Ok(x),
        Err(_) => r2,
    }
}

impl<PA: Parser, PB: Parser<Output = PA::Output>> Parser for Either<PA, PB> {
    type Output = PA::Output;

    open spec fn spec_parse(&self, s: Seq<char>) -> SpecResult<<PA::Output as DeepView>::V> {
        either_spec(self.first.spec_parse(s), self.second.spec_parse(s))
    }

    proof fn lemma_suffix(&self, s: Seq<char>) {
        self.first.lemma_suffix(s);
        self.second.lemma_suffix(s);
    }

    fn parse<'a>(&self, input: &'a str) -> (r: ParseResult<'a, PA::Output>) {
        match self.first.parse(input) {
            Ok(x) => Ok(x),
            Err(_) => self.second.parse(input),
        }
    }
}

/// The repetition of `p` from `s`: what is left and the values in order.
/// It ends where `p` fails or succeeds without consuming anything.
pub open spec fn star<P: Parser>(p: P, s: Seq<char>) -> (Seq<char>, Seq<<P::Output as DeepView>::V>)
    decreases s.len(),
{
    match p.spec_parse(s) {
        Ok((rest, v)) => if rest.len() < s.len() {
            let (r2, vs) = star(p, rest);
            (r2, seq![v] + vs)
        } else {
            (s, Seq::empty())
        },
        Err(_) => (s, Seq::empty()),
    }
}

pub proof fn lemma_star_suffix<P: Parser>(p: P, s: Seq<char>)
    ensures
        is_suffix(star(p, s).0, s),
    decreases s.len(),
{
    lemma_skip_suffix(s, 0);
    assert(s.skip(0) =~= s);
    p.lemma_suffix(s);
    if let Ok((rest, v)) = p.spec_parse(s) {
        if rest.len() < s.len() {
            lemma_star_suffix(p, rest);
            lemma_suffix_trans(star(p, rest).0, rest, s);
        }
    }
}

fn run_star<'a, P: Parser>(p: &P, input: &'a str, out: &mut Vec<P::Output>) -> (rest: &'a str)
    ensures
        rest@ == star(*p, input@).0,
        final(out).deep_view() == old(out).deep_view() + star(*p, input@).1,
{
    let mut cur = input;
    let ghost start = old(out).deep_view();
    loop
        invariant
            star(*p, input@).0 == star(*p, cur@).0,
            start + star(*p, input@).1 == out.deep_view() + star(*p, cur@).1,
        ensures
            star(*p, cur@).0 == cur@,
            star(*p, cur@).1 == Seq::<<P::Output as DeepView>::V>::empty(),
        decreases cur@.len(),
    {
        let ghost before = out.deep_view();
        match p.parse(cur) {
            Ok((rest, v)) => {
                proof {
                    p.lemma_suffix(cur@);
                }
                if rest.unicode_len() < cur.unicode_len() {
                    let ghost vv = v.deep_view();
                    out.push(v);
                    proof {
                        assert(out.deep_view() =~= before.push(vv));
                        assert(before + (seq![vv] + star(*p, rest@).1) =~= out.deep_view() + star(*p, rest@).1);
                    }
                    cur = rest;
                } else {
                    break;
                }
            },
            Err(_) => break,
        }
    }
    proof {
        assert(star(*p, cur@).1 =~= Seq::empty());
        assert(out.deep_view() + Seq::empty() =~= out.deep_view());
    }
    cur
}

impl<P: Parser> Parser for ZeroOrMore<P> {
    type Output = Vec<P::Output>;

    open spec fn spec_parse(&self, s: Seq<char>) -> SpecResult<Seq<<P::Output as DeepView>::V>> {
        Ok(star(self.p, s))
    }

    proof fn lemma_suffix(&self, s: Seq<char>) {
        lemma_star_suffix(self.p, s);
    }

    fn parse<'a>(&self, input: &'a str) -> (r: ParseResult<'a, Vec<P::Output>>) {
        let mut out: Vec<P::Output> = Vec::new();
        let rest = run_star(&self.p, input, &mut out);
        assert(out.deep_view() =~= star(self.p, input@).1);
        Ok((rest, out))
    }
}

/// One application of `p`, then its repetition on what is left.
pub open spec fn plus_spec<P: Parser>(p: P, s: Seq<char>) -> SpecResult<Seq<<P::Output as DeepView>::V>> {
    match p.spec_parse(s) {
        Err(e) => Err(e),
        Ok((rest, v)) => Ok((star(p, rest).0, seq![v] + star(p, rest).1)),
    }
}

impl<P: Parser> Parser for OneOrMore<P> {
    type Output = Vec<P::Output>;

    open spec fn spec_parse(&self, s: Seq<char>) -> SpecResult<Seq<<P::Output as DeepView>::V>> {
        plus_spec(self.p, s)
    }

    proof fn lemma_suffix(&self, s: Seq<char>) {
        self.p.lemma_suffix(s);
        if let Ok((rest, v)) = self.p.spec_parse(s) {
            lemma_star_suffix(self.p, rest);
            lemma_suffix_trans(star(self.p, rest).0, rest, s);
        }
    }

    fn parse<'a>(&self, input: &'a str) -> (r: ParseResult<'a, Vec<P::Output>>) {
        match self.p.parse(input) {
            Err(e) => Err(e),
            Ok((rest, v)) => {
                let ghost vv = v.deep_view();
                let mut out: Vec<P::Output> = Vec::new();
                out.push(v);
                assert(out.deep_view() =~= seq![vv]);
                let rest2 = run_star(&self.p, rest, &mut out);
                Ok((rest2, out))
            },
        }
    }
}

/// `p` between two runs of whitespace.
pub open spec fn wrap_spec<V>(s: Seq<char>, f: spec_fn(Seq<char>) -> SpecResult<V>) -> SpecResult<V> {
    match f(space0_spec(s)->Ok_0.0) {
        Err(e) => Err(e),
        Ok((rest, v)) => Ok((space0_spec(rest)->Ok_0.0, v)),
    }
}

impl<P: Parser> Parser for WhitespaceWrap<P> {
    type Output = P::Output;

    open spec fn spec_parse(&self, s: Seq<char>) -> SpecResult<<P::Output as DeepView>::V> {
        wrap_spec(s, |t: Seq<char>| self.p.spec_parse(t))
    }

    proof fn lemma_suffix(&self, s: Seq<char>) {
        lemma_space(s);
        let s1 = space0_spec(s)->Ok_0.0;
        self.p.lemma_suffix(s1);
        match self.p.spec_parse(s1) {
            Err(e) => lemma_suffix_trans(e, s1, s),
            Ok((rest, v)) => {
                lemma_space(rest);
                lemma_suffix_trans(rest, s1, s);
                lemma_suffix_trans(space0_spec(rest)->Ok_0.0, rest, s);
            },
        }
    }

    fn parse<'a>(&self, input: &'a str) -> (r: ParseResult<'a, P::Output>) {
        let (s1, _) = Space0.parse(input).unwrap();
        match self.p.parse(s1) {
            Err(e) => Err(e),
            Ok((rest, v)) => {
                let (rest2, _) = Space0.parse(rest).unwrap();
                Ok((rest2, v))
            },
        }
    }
}

} // verus!

verus! {

/// A function on parsed values, with its mathematical meaning.
pub trait Transform<A: DeepView> {
    type Out: DeepView;

    spec fn spec_apply(&self, a: A::V) -> <Self::Out as DeepView>::V;

    fn apply(&self, a: A) -> (b: Self::Out)
        ensures
            b.deep_view() == self.spec_apply(a.deep_view()),
    ;
}

/// A test on parsed values, with its mathematical meaning.
pub trait Check<A: DeepView> {
    spec fn spec_check(&self, a: A::V) -> bool;

    fn check(&self, a: &A) -> (r: bool)
        ensures
            r == self.spec_check(a.deep_view()),
    ;
}

/// What to parse next once a value has been parsed, given that value.
pub trait Continuation<A: DeepView> {
    type Out: DeepView;

    /// The parse of `s` that follows the value `a`.
    spec fn spec_continue(&self, a: A::V, s: Seq<char>) -> SpecResult<<Self::Out as DeepView>::V>;

    proof fn lemma_continue_suffix(&self, a: A::V, s: Seq<char>)
        ensures
            stays_within(s, self.spec_continue(a, s)),
    ;

    fn run<'a>(&self, a: A, input: &'a str) -> (r: ParseResult<'a, Self::Out>)
        ensures
            result_view(r) == self.spec_continue(a.deep_view(), input@),
    ;
}

/// Runs `p` and passes a value it produces through `f`.
pub struct Mapped<P, F> {
    pub p: P,
    pub f: F,
}

/// Runs `p` and keeps a value it produces only where `f` accepts it; where
/// `f` rejects it, fails on the input `p` was given.
pub struct Pred<P, F> {
    pub p: P,
    pub f: F,
}

/// Runs `p`, then what `k` makes of the value on the remaining input.
pub struct AndThen<P, K> {
    pub p: P,
    pub k: K,
}

pub fn map<P: Parser, F: Transform<P::Output>>(p: P, f: F) -> (r: Mapped<P, F>)
    ensures
        r.p == p && r.f == f,
{
    Mapped { p, f }
}

pub fn pred<P: Parser, F: Check<P::Output>>(p: P, f: F) -> (r: Pred<P, F>)
    ensures
        r.p == p && r.f == f,
{
    Pred { p, f }
}

pub fn and_then<P: Parser, K: Continuation<P::Output>>(p: P, k: K) -> (r: AndThen<P, K>)
    ensures
        r.p == p && r.k == k,
{
    AndThen { p, k }
}

impl<P: Parser, F: Transform<P::Output>> Parser for Mapped<P, F> {
    type Output = F::Out;

    open spec fn spec_parse(&self, s: Seq<char>) -> SpecResult<<F::Out as DeepView>::V> {
        match self.p.spec_parse(s) {
            Err(e) => Err(e),
            Ok((rest, v)) => Ok((rest, self.f.spec_apply(v))),
        }
    }

    proof fn lemma_suffix(&self, s: Seq<char>) {
        self.p.lemma_suffix(s);
    }

    fn parse<'a>(&self, input: &'a str) -> (r: ParseResult<'a, F::Out>) {
        match self.p.parse(input) {
            Err(e) => Err(e),
            Ok((rest, v)) => Ok((rest, self.f.apply(v))),
        }
    }
}

impl<P: Parser, F: Check<P::Output>> Parser for Pred<P, F> {
    type Output = P::Output;

    open spec fn spec_parse(&self, s: Seq<char>) -> SpecResult<<P::Output as DeepView>::V> {
        match self.p.spec_parse(s) {
            Err(e) => Err(e),
            Ok((rest, v)) => if self.f.spec_check(v) {
                Ok((rest, v))
            } else {
                Err(s)
            },
        }
    }

    proof fn lemma_suffix(&self, s: Seq<char>) {
        self.p.lemma_suffix(s);
        lemma_skip_suffix(s, 0);
        assert(s.skip(0) =~= s);
    }

    fn parse<'a>(&self, input: &'a str) -> (r: ParseResult<'a, P::Output>) {
        match self.p.parse(input) {
            Err(e) => Err(e),
            Ok((rest, v)) => if self.f.check(&v) {
                Ok((rest, v))
            } else {
                Err(input)
            },
        }
    }
}

impl<P: Parser, K: Continuation<P::Output>> Parser for AndThen<P, K> {
    type Output = K::Out;

    open spec fn spec_parse(&self, s: Seq<char>) -> SpecResult<<K::Out as DeepView>::V> {
        match self.p.spec_parse(s) {
            Err(e) => Err(e),
            Ok((rest, v)) => self.k.spec_continue(v, rest),
        }
    }

    proof fn lemma_suffix(&self, s: Seq<char>) {
        self.p.lemma_suffix(s);
        if let Ok((rest, v)) = self.p.spec_parse(s) {
            self.k.lemma_continue_suffix(v, rest);
            match self.k.spec_continue(v, rest) {
                Err(e) => lemma_suffix_trans(e, rest, s),
                Ok((rest2, _)) => lemma_suffix_trans(rest2, rest, s),
            }
        }
    }

    fn parse<'a>(&self, input: &'a str) -> (r: ParseResult<'a, K::Out>) {
        match self.p.parse(input) {
            Err(e) => Err(e),
            Ok((rest, v)) => self.k.run(v, rest),
        }
    }
}

} // verus!
