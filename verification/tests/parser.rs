use nhl_rs::json::{parse_json, JsonValue};

#[test]
fn parses_literals() {
    assert!(matches!(parse_json("null"), Some(JsonValue::Null)));
    assert!(matches!(parse_json("true"), Some(JsonValue::Bool(true))));
    assert!(matches!(parse_json("false"), Some(JsonValue::Bool(false))));
}

#[test]
fn parses_integers() {
    assert!(matches!(parse_json("42"), Some(JsonValue::Int(42))));
    assert!(matches!(parse_json("-17"), Some(JsonValue::Int(-17))));
    assert!(matches!(parse_json("0"), Some(JsonValue::Int(0))));
    assert!(matches!(parse_json("-0"), Some(JsonValue::Int(0))));
}

#[test]
fn parses_extreme_integers() {
    assert!(matches!(
        parse_json("9223372036854775807"),
        Some(JsonValue::Int(9223372036854775807))
    ));
    assert!(matches!(
        parse_json("-9223372036854775808"),
        Some(JsonValue::Int(-9223372036854775808))
    ));
}

#[test]
fn rejects_integer_overflow() {
    assert!(parse_json("9223372036854775808").is_none());
    assert!(parse_json("-9223372036854775809").is_none());
    assert!(parse_json("99999999999999999999999").is_none());
}

#[test]
fn rejects_leading_zero() {
    assert!(parse_json("01").is_none());
    assert!(parse_json("-01").is_none());
}

#[test]
fn rejects_fractions_and_exponents() {
    assert!(parse_json("1.5").is_none());
    assert!(parse_json("1e3").is_none());
    assert!(parse_json("2E8").is_none());
}

#[test]
fn parses_strings() {
    match parse_json("\"hello\"") {
        Some(JsonValue::Text(t)) => assert_eq!(t, "hello"),
        other => panic!("unexpected: {:?}", other),
    }
    match parse_json("\"a\\\"b\\\\c\\n\\t\"") {
        Some(JsonValue::Text(t)) => assert_eq!(t, "a\"b\\c\n\t"),
        other => panic!("unexpected: {:?}", other),
    }
    match parse_json("\"\"") {
        Some(JsonValue::Text(t)) => assert_eq!(t, ""),
        other => panic!("unexpected: {:?}", other),
    }
}

#[test]
fn rejects_unterminated_string() {
    assert!(parse_json("\"abc").is_none());
    assert!(parse_json("\"abc\\\"").is_none());
}

#[test]
fn rejects_unknown_escape() {
    assert!(parse_json("\"\\u0041\"").is_none());
    assert!(parse_json("\"\\q\"").is_none());
}

#[test]
fn parses_arrays() {
    match parse_json("[1, 2, 3]") {
        Some(JsonValue::Arr(vs)) => {
            assert_eq!(vs.len(), 3);
            assert!(matches!(vs[0], JsonValue::Int(1)));
            assert!(matches!(vs[2], JsonValue::Int(3)));
        },
        other => panic!("unexpected: {:?}", other),
    }
    assert!(matches!(parse_json("[]"), Some(JsonValue::Arr(v)) if v.is_empty()));
    assert!(matches!(parse_json(" [ ] "), Some(JsonValue::Arr(v)) if v.is_empty()));
}

#[test]
fn parses_nested_structures() {
    match parse_json("{\"a\": [true, {\"b\": null}], \"c\": -1}") {
        Some(JsonValue::Obj(fs)) => {
            assert_eq!(fs.len(), 2);
            assert_eq!(fs[0].name, "a");
            assert_eq!(fs[1].name, "c");
            match &fs[0].value {
                JsonValue::Arr(vs) => {
                    assert_eq!(vs.len(), 2);
                    assert!(matches!(vs[0], JsonValue::Bool(true)));
                },
                other => panic!("unexpected: {:?}", other),
            }
        },
        other => panic!("unexpected: {:?}", other),
    }
}

#[test]
fn rejects_trailing_content() {
    assert!(parse_json("1 2").is_none());
    assert!(parse_json("{} x").is_none());
    assert!(parse_json("[1,]").is_none());
    assert!(parse_json("{\"a\":1,}").is_none());
}

#[test]
fn rejects_empty_and_garbage() {
    assert!(parse_json("").is_none());
    assert!(parse_json("   ").is_none());
    assert!(parse_json("nul").is_none());
    assert!(parse_json("tru").is_none());
    assert!(parse_json("{").is_none());
    assert!(parse_json("[1").is_none());
    assert!(parse_json("{\"a\"}").is_none());
    assert!(parse_json("{1: 2}").is_none());
}

#[test]
fn accepts_surrounding_whitespace() {
    assert!(matches!(parse_json("  \t\r\n 7 \n"), Some(JsonValue::Int(7))));
}
