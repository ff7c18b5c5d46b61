use comb::json::{boolean, element, element_pair, element_pairs, null, number, object, Element};

#[test]
fn null_match() {
    assert_eq!(Ok(("", ())), null("null"));
    assert_eq!(Err("nil"), boolean("nil"));
}

#[test]
fn boolean_match() {
    assert_eq!(Ok(("", true)), boolean("true"));
    assert_eq!(Ok(("", false)), boolean("false"));
    assert_eq!(Err("aaa"), boolean("aaa"));
}

#[test]
fn number_match() {
    assert_eq!(Ok(("", 1)), number("1"));
    assert_eq!(Ok(("a", 123)), number("123a"));
    assert_eq!(Err("ddwedq"), number("ddwedq"));
}

#[test]
fn element_match() {
    assert_eq!(Ok(("", Element::Number(1))), element("1"));
    assert_eq!(Ok(("", Element::Null)), element("null"));
    assert_eq!(Ok(("", Element::Bool(false))), element("false"));
    assert_eq!(Ok(("", Element::String("test value".to_owned()))), element("\"test value\""));
    assert_eq!(Err("whatever"), element("whatever"));
}

#[test]
fn element_pair_match() {
    assert_eq!(Ok(("", ("test".to_owned(), Element::Bool(true)))), element_pair("\"test\":true"));
    assert_eq!(Ok(("", ("test".to_owned(), Element::Number(1)))), element_pair("\"test\":1"));
    assert_eq!(Ok(("", ("test".to_owned(), Element::Number(1)))), element_pair("\"test\" : 1"));
    assert_eq!(
        Ok(("", ("test with multiple words".to_owned(), Element::String("value".to_owned())))),
        element_pair("\"test with multiple words\":\"value\"")
    );
    assert_eq!(Err(":1"), element_pair("\"test\"::1"));
}

#[test]
fn elements_pair_match() {
    assert_eq!(
        Ok(("", vec![("test".to_owned(), Element::Bool(true)), ("test2".to_owned(), Element::Bool(false))])),
        element_pairs("\"test\": true, \"test2\": false")
    );

    assert_eq!(
        Ok(("   ", vec![("test".to_owned(), Element::Bool(true)), ("test2".to_owned(), Element::Bool(false))])),
        element_pairs("\"test\" : true , \"test2\" : false   ")
    );

    assert_eq!(
        Ok(("", vec![("test".to_owned(), Element::Bool(true)), ("test2".to_owned(), Element::Bool(false))])),
        element_pairs("\"test\" : true , \"test2\" : false,")
    );
}

#[test]
fn object_match() {
    let expected = vec![("test".to_owned(), Element::Bool(true))];

    assert_eq!(Ok(("", expected)), object("{\"test\":true}"));

    let expected = vec![("test".to_owned(), Element::Bool(true)), ("test2".to_owned(), Element::Number(3))];

    assert_eq!(Ok(("", expected)), object("{ \"test\": true, \"test2\": 3   }"))
}

#[test]
fn object_scenario_two_members() {
    let expected = vec![("a".to_owned(), Element::Bool(true)), ("b".to_owned(), Element::Number(1))];
    assert_eq!(Ok(("", expected)), object("{\"a\":true,\"b\":1}"));
}

#[test]
fn object_scenario_double_colon_fails() {
    let r = object("{\"a\"::1}");
    assert!(r.is_err());
    assert_eq!(Err(":1}"), r);
}

#[test]
fn object_later_key_overrides_in_place() {
    let expected = vec![("a".to_owned(), Element::Number(3)), ("b".to_owned(), Element::Null)];
    assert_eq!(Ok(("", expected)), object("{\"a\":1, \"b\":null, \"a\":3}"));
}

#[test]
fn object_without_members_fails() {
    assert_eq!(Err("}"), object("{}"));
}

#[test]
fn object_missing_close_brace_fails() {
    assert_eq!(Err(""), object("{\"a\":1"));
}

#[test]
fn number_overflow_fails_in_place() {
    assert_eq!(Ok(("", 2147483647)), number("2147483647"));
    assert_eq!(Err("2147483648"), number("2147483648"));
    assert_eq!(Err("99999999999x"), number("99999999999x"));
}

#[test]
fn number_non_ascii_numeric_fails() {
    assert_eq!(Err("\u{0663}1"), number("\u{0663}1"));
    assert_eq!(Ok((" rest", 7)), number("007 rest"));
}

#[test]
fn element_unclosed_string_fails_in_place() {
    assert_eq!(Err("\"open"), element("\"open"));
}

#[test]
fn element_keeps_unicode_text() {
    assert_eq!(Ok((" x", Element::String("héllo wörld".to_owned()))), element("\"héllo wörld\" x"));
}
