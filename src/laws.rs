use vstd::prelude::*;

use crate::combinators::{star, Check, Either, Mapped, Pred, Transform, ZeroOrMore};
use crate::parser::{fails_in_place, Parser};

verus! {

/// A successful parse never lengthens its input: the remainder is no longer
/// than the input, and the consumed prefix followed by the remainder gives
/// back the input exactly.
pub proof fn consumption_is_prefix<P: Parser>(p: P, s: Seq<char>)
    ensures
        (p.spec_parse(s) is Ok) ==> (p.spec_parse(s)->Ok_0.0.len() <= s.len()),
        (p.spec_parse(s) is Ok) ==> (s.take(s.len() - p.spec_parse(s)->Ok_0.0.len()) + p.spec_parse(s)->Ok_0.0 == s),
{
    p.lemma_suffix(s);
    if let Ok((rest, _)) = p.spec_parse(s) {
        assert(s.take(s.len() - rest.len()) + rest =~= s);
    }
}

/// A repetition never fails, and it produces no values where its parser
/// fails at once.
pub proof fn zero_or_more_is_total<P: Parser>(p: P, s: Seq<char>)
    ensures
        ((ZeroOrMore { p }).spec_parse(s) is Ok),
        (p.spec_parse(s) is Err) ==> ((ZeroOrMore { p }).spec_parse(s)->Ok_0.0 == s),
        (p.spec_parse(s) is Err) ==> ((ZeroOrMore { p }).spec_parse(s)->Ok_0.1.len() == 0),
{
    reveal_with_fuel(star, 1);
}

/// Ordered choice: where the first parser succeeds, its result is the choice's
/// result, whatever the second one would do.
pub proof fn either_prefers_first<PA: Parser, PB: Parser<Output = PA::Output>>(first: PA, second: PB, s: Seq<char>)
    requires
        (first.spec_parse(s) is Ok),
    ensures
        (Either { first, second }).spec_parse(s) == first.spec_parse(s),
{
}

/// Where the first parser fails, the choice is the second parser's result.
pub proof fn either_falls_back<PA: Parser, PB: Parser<Output = PA::Output>>(first: PA, second: PB, s: Seq<char>)
    requires
        (first.spec_parse(s) is Err),
    ensures
        (Either { first, second }).spec_parse(s) == second.spec_parse(s),
{
}

/// A choice between two parsers that fail without consuming input also fails
/// without consuming input.
pub proof fn either_fails_in_place<PA: Parser, PB: Parser<Output = PA::Output>>(first: PA, second: PB, s: Seq<char>)
    requires
        fails_in_place(s, first.spec_parse(s)),
        fails_in_place(s, second.spec_parse(s)),
    ensures
        fails_in_place(s, (Either { first, second }).spec_parse(s)),
{
}

/// Mapping a parser's value does not change where it fails.
pub proof fn mapped_fails_in_place<P: Parser, F: Transform<P::Output>>(p: P, f: F, s: Seq<char>)
    requires
        fails_in_place(s, p.spec_parse(s)),
    ensures
        fails_in_place(s, (Mapped { p, f }).spec_parse(s)),
{
}

/// A predicate on a parser that fails in place also fails in place: a value
/// that the predicate rejects undoes the whole parse.
pub proof fn pred_fails_in_place<P: Parser, F: Check<P::Output>>(p: P, f: F, s: Seq<char>)
    requires
        fails_in_place(s, p.spec_parse(s)),
    ensures
        fails_in_place(s, (Pred { p, f }).spec_parse(s)),
{
}

} // verus!
