use comb::{
    either, left, match_literal, one_or_more, pair, quoted_string, right, space0, space1, whitespace_wrap,
    zero_or_more, Parser,
};

#[test]
fn literal_round_trip() {
    assert_eq!(Ok(("", ())), match_literal("null").parse("null"));
    assert_eq!(Ok(("able", ())), match_literal("null").parse("nullable"));
    assert_eq!(Err("nul"), match_literal("null").parse("nul"));
}

#[test]
fn literal_is_case_sensitive() {
    assert_eq!(Err("NULL"), match_literal("null").parse("NULL"));
    assert_eq!(Ok(("x", ())), match_literal("").parse("x"));
}

#[test]
fn literal_failure_keeps_input() {
    assert_eq!(Err("abc"), match_literal("abd").parse("abc"));
}

#[test]
fn consumed_prefix_and_remainder_rebuild_input() {
    let input = "nullable";
    let (rest, _) = match_literal("null").parse(input).unwrap();
    assert!(rest.len() <= input.len());
    assert_eq!(format!("{}{}", &input[..input.len() - rest.len()], rest), input);
}

#[test]
fn zero_or_more_never_fails() {
    let p = zero_or_more(match_literal("ab"));
    assert_eq!(Ok(("xyz", vec![])), p.parse("xyz"));
    assert_eq!(Ok(("", vec![])), p.parse(""));
    assert_eq!(Ok(("a", vec![(), (), ()])), p.parse("abababa"));
}

#[test]
fn zero_or_more_stops_without_progress() {
    let p = zero_or_more(match_literal(""));
    assert_eq!(Ok(("abc", vec![])), p.parse("abc"));
}

#[test]
fn one_or_more_needs_one() {
    let p = one_or_more(match_literal("ab"));
    assert_eq!(Err("xyz"), p.parse("xyz"));
    assert_eq!(Ok(("c", vec![(), ()])), p.parse("ababc"));
}

#[test]
fn either_prefers_first_success() {
    let p = either(right(match_literal("a"), quoted_string()), right(match_literal("b"), quoted_string()));
    assert_eq!(Ok(("", "x".to_string())), p.parse("a\"x\""));
    assert_eq!(Ok(("", "y".to_string())), p.parse("b\"y\""));
    assert_eq!(Err("c"), p.parse("c"));
    let first_wins = either(match_literal("ab"), match_literal("a"));
    assert_eq!(Ok(("c", ())), first_wins.parse("abc"));
}

#[test]
fn pair_left_right_keep_values() {
    let p = pair(quoted_string(), right(match_literal("="), quoted_string()));
    assert_eq!(Ok(("!", ("k".to_string(), "v".to_string()))), p.parse("\"k\"=\"v\"!"));
    let l = left(quoted_string(), match_literal(";"));
    assert_eq!(Ok(("", "k".to_string())), l.parse("\"k\";"));
    assert_eq!(Err(","), l.parse("\"k\","));
}

#[test]
fn whitespace_wrap_trims_both_sides() {
    let p = whitespace_wrap(match_literal("x"));
    assert_eq!(Ok(("y", ())), p.parse(" \t\n x  y"));
    assert_eq!(Err("y"), p.parse("  y"));
}

#[test]
fn spaces() {
    assert_eq!(Ok(("a", ())), space0().parse("a"));
    assert_eq!(Ok(("a", ())), space0().parse("  a"));
    assert_eq!(Err("a"), space1().parse("a"));
    assert_eq!(Ok(("a", ())), space1().parse(" \u{3000}a"));
}

#[test]
fn quoted_string_cases() {
    assert_eq!(Ok((" tail", "in side".to_string())), quoted_string().parse("\"in side\" tail"));
    assert_eq!(Ok(("", "".to_string())), quoted_string().parse("\"\""));
    assert_eq!(Err("\"unclosed"), quoted_string().parse("\"unclosed"));
    assert_eq!(Err("plain"), quoted_string().parse("plain"));
}
