use comb::xml::{attributes, element, identifier, single_element, Element};
use comb::Parser;

#[test]
fn identifier_parser() {
    assert_eq!(Ok(("", "i-am-identifier".to_owned())), identifier("i-am-identifier"));
    assert_eq!(Ok((" all identifier", "not".to_owned())), identifier("not all identifier"));
    assert_eq!(Err("!not an identifier"), identifier("!not an identifier"));
    assert_eq!(Err("!not"), identifier("!not"));
}

#[test]
fn single_element_parser() {
    assert_eq!(
        Ok((
            "",
            Element {
                name: "div".to_string(),
                attributes: vec![("class".to_string(), "float".to_string())],
                children: vec![],
            }
        )),
        single_element().parse("<div class=\"float\"/>")
    );
}

#[test]
fn attribute_parser() {
    assert_eq!(
        Ok(("", vec![("one".to_string(), "1".to_string()), ("two".to_string(), "2".to_string())])),
        attributes().parse(" one=\"1\" two=\"2\"")
    );
}

#[test]
fn xml_parser() {
    let doc = r#"
        <top label="Top">
            <semi-bottom label="Bottom"/>
            <middle>
                <bottom label="Another bottom"/>
            </middle>
        </top>"#;
    let parsed_doc = Element {
        name: "top".to_string(),
        attributes: vec![("label".to_string(), "Top".to_string())],
        children: vec![
            Element {
                name: "semi-bottom".to_string(),
                attributes: vec![("label".to_string(), "Bottom".to_string())],
                children: vec![],
            },
            Element {
                name: "middle".to_string(),
                attributes: vec![],
                children: vec![Element {
                    name: "bottom".to_string(),
                    attributes: vec![("label".to_string(), "Another bottom".to_string())],
                    children: vec![],
                }],
            },
        ],
    };
    assert_eq!(Ok(("", parsed_doc)), element().parse(doc));
}

#[test]
fn mismatched_closing_tag() {
    let doc = r#"
        <top>
            <bottom/>
        </middle>"#;
    assert_eq!(Err("</middle>"), element().parse(doc));
}

#[test]
fn nested_scenario() {
    let expected = Element {
        name: "a".to_string(),
        attributes: vec![],
        children: vec![Element { name: "b".to_string(), attributes: vec![], children: vec![] }],
    };
    assert_eq!(Ok(("", expected)), element().parse("<a><b/></a>"));
}

#[test]
fn nested_scenario_mismatch() {
    assert_eq!(Err("</c>"), element().parse("<a><b/></c>"));
}

#[test]
fn identifier_takes_letters_digits_and_hyphens() {
    assert_eq!(Ok(("=x", "a1-b2".to_owned())), identifier("a1-b2=x"));
    assert_eq!(Err("1abc"), identifier("1abc"));
    assert_eq!(Err(""), identifier(""));
}

#[test]
fn attributes_stop_before_non_attribute() {
    assert_eq!(Ok(("/>", vec![("k".to_string(), "v".to_string())])), attributes().parse(" k=\"v\"/>"));
    assert_eq!(Ok(("", vec![])), attributes().parse(""));
}
