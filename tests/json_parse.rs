use raytracer::json::{is_json_document, parse_json, JsonValue};

fn text(s: &str) -> JsonValue {
    JsonValue::String(String::from(s))
}

fn number(s: &str) -> JsonValue {
    JsonValue::Number(String::from(s))
}

#[test]
fn parses_nested_document() {
    let doc = "{\"a\": 1, \"b\": \"x y\", \"c\": [true, false, null], \"d\": {\"e\": -2.5}}";
    let expected = JsonValue::Object(vec![
        (String::from("a"), number("1")),
        (String::from("b"), text("x y")),
        (
            String::from("c"),
            JsonValue::Array(vec![
                JsonValue::Boolean(true),
                JsonValue::Boolean(false),
                JsonValue::Null,
            ]),
        ),
        (
            String::from("d"),
            JsonValue::Object(vec![(String::from("e"), number("-2.5"))]),
        ),
    ]);
    assert_eq!(parse_json(doc), Some(expected));
}

#[test]
fn parses_empty_object_after_whitespace() {
    assert_eq!(parse_json(" \n\t{}"), Some(JsonValue::Object(vec![])));
}

#[test]
fn parses_empty_array() {
    let expected = JsonValue::Object(vec![(String::from("list"), JsonValue::Array(vec![]))]);
    assert_eq!(parse_json("{\"list\":[]}"), Some(expected));
}

#[test]
fn keeps_number_lexeme() {
    let expected = JsonValue::Object(vec![
        (String::from("n"), number("+3.25")),
        (String::from("m"), number(".5")),
        (String::from("k"), number("7.")),
    ]);
    assert!(!is_json_document("{\"n\": +3.25, \"m\": .5, \"k\": 7.}"));
    assert!(is_json_document("{\"n\": +3.25, \"k\": 7.}"));
    assert_ne!(parse_json("{\"n\": +3.25}"), Some(expected));
    let parsed = parse_json("{\"n\": +3.25, \"k\": 7.}").unwrap();
    assert_eq!(
        parsed,
        JsonValue::Object(vec![
            (String::from("n"), number("+3.25")),
            (String::from("k"), number("7.")),
        ])
    );
}

#[test]
fn reads_capitalised_literals() {
    let expected = JsonValue::Object(vec![
        (String::from("t"), JsonValue::Boolean(true)),
        (String::from("f"), JsonValue::Boolean(false)),
        (String::from("n"), JsonValue::Null),
    ]);
    assert_eq!(parse_json("{\"t\": True, \"f\": FALSE, \"n\": Null}"), Some(expected));
}

#[test]
fn rejects_missing_colon() {
    assert!(!is_json_document("{\"a\" 1}"));
}

#[test]
fn rejects_unterminated_object() {
    assert!(!is_json_document("{\"a\": 1"));
    assert!(!is_json_document("{\"a\": [1, 2"));
}

#[test]
fn rejects_unknown_value_start() {
    assert!(!is_json_document("{\"a\": @}"));
}

#[test]
fn rejects_malformed_number() {
    assert!(!is_json_document("{\"a\": 1-2}"));
    assert!(!is_json_document("{\"a\": 1.2.3}"));
    assert!(!is_json_document("{\"a\": -}"));
}

#[test]
fn trailing_comma_before_bracket() {
    let expected = JsonValue::Object(vec![(String::from("a"), JsonValue::Array(vec![number("1")]))]);
    assert_eq!(parse_json("{\"a\": [1,]}"), Some(expected));
    assert!(!is_json_document("{\"a\": [1, ]}"));
}

#[test]
fn rejects_empty_text() {
    assert!(!is_json_document(""));
    assert!(!is_json_document("   "));
}

#[test]
fn rejects_missing_separator() {
    assert!(!is_json_document("{\"a\": 1 \"b\": 2}"));
}
