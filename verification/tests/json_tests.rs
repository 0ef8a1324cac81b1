use refsync::json::{JsonVal, to_json_text};
use refsync::parse::parse_json;

fn obj(fields: Vec<(&str, JsonVal)>) -> JsonVal {
    JsonVal::Obj(fields.into_iter().map(|(k, v)| (k.to_string(), v)).collect())
}

#[test]
fn encode_scalars() {
    assert_eq!(to_json_text(&JsonVal::Null), "null");
    assert_eq!(to_json_text(&JsonVal::Bool(true)), "true");
    assert_eq!(to_json_text(&JsonVal::Bool(false)), "false");
    assert_eq!(to_json_text(&JsonVal::Int(0)), "0");
    assert_eq!(to_json_text(&JsonVal::Int(1250)), "1250");
    assert_eq!(to_json_text(&JsonVal::Int(-7)), "-7");
    assert_eq!(to_json_text(&JsonVal::Int(i64::MIN)), "-9223372036854775808");
    assert_eq!(to_json_text(&JsonVal::Int(i64::MAX)), "9223372036854775807");
}

#[test]
fn encode_strings_escapes() {
    assert_eq!(to_json_text(&JsonVal::Str(String::new())), "\"\"");
    assert_eq!(to_json_text(&JsonVal::Str("abc".to_string())), "\"abc\"");
    assert_eq!(
        to_json_text(&JsonVal::Str("a\"b\\c\nd".to_string())),
        "\"a\\\"b\\\\c\\nd\""
    );
}

#[test]
fn encode_nested() {
    let v = obj(vec![
        ("pi", JsonVal::Int(2)),
        ("arr", JsonVal::Arr(vec![JsonVal::Int(1), JsonVal::Null, JsonVal::Bool(false)])),
    ]);
    assert_eq!(to_json_text(&v), "{\"pi\":2,\"arr\":[1,null,false]}");
}

#[test]
fn encode_agrees_with_reference_decoder() {
    let v = obj(vec![
        ("name", JsonVal::Str("L'épée \"fine\"".to_string())),
        ("deep", JsonVal::Arr(vec![obj(vec![("k", JsonVal::Int(-12))])])),
    ]);
    let text = to_json_text(&v);
    let reparsed: serde_json::Value = serde_json::from_str(&text).expect("valid JSON");
    assert_eq!(reparsed["name"], serde_json::Value::String("L'épée \"fine\"".to_string()));
    assert_eq!(reparsed["deep"][0]["k"], serde_json::Value::Number(serde_json::Number::from(-12)));
}

#[test]
fn parse_scalars() {
    assert!(matches!(parse_json("null"), Some(JsonVal::Null)));
    assert!(matches!(parse_json("true"), Some(JsonVal::Bool(true))));
    assert!(matches!(parse_json(" -42 "), Some(JsonVal::Int(-42))));
    assert!(matches!(parse_json("9223372036854775807"), Some(JsonVal::Int(i64::MAX))));
    assert!(matches!(parse_json("-9223372036854775808"), Some(JsonVal::Int(i64::MIN))));
    assert!(parse_json("nope").is_none());
    assert!(parse_json("").is_none());
    assert!(parse_json("[1,2").is_none());
    assert!(parse_json("1.").is_none());
    assert!(parse_json("1e").is_none());
}

#[test]
fn numbers_beyond_i64_keep_their_lexemes() {
    // A fraction, an exponent or an out-of-range whole value is no longer a
    // 64-bit integer; its raw lexeme travels through unchanged.
    match parse_json("1.5") {
        Some(JsonVal::Num(s)) => assert_eq!(s, "1.5"),
        _ => panic!("a fraction must keep its lexeme"),
    }
    match parse_json("9223372036854775808") {
        Some(JsonVal::Num(s)) => assert_eq!(s, "9223372036854775808"),
        _ => panic!("an out-of-range whole value must keep its lexeme"),
    }
    for text in ["[1.5,-0.25e10,18446744073709551616]", "{\"poids\":0.75}", "-1.0E-3"] {
        let v = parse_json(text).expect("parses");
        assert_eq!(to_json_text(&v), text);
    }
    // The reference decoder agrees that the forwarded text is valid JSON.
    let v = parse_json("{\"prix\":19.99}").expect("parses");
    let re: serde_json::Value = serde_json::from_str(&to_json_text(&v)).expect("valid JSON");
    assert_eq!(re["prix"], serde_json::Value::from(19.99));
}

#[test]
fn unicode_escapes_are_read_and_controls_written() {
    match parse_json("\"\\u0041\\u00e9\"") {
        Some(JsonVal::Str(s)) => assert_eq!(s, "Aé"),
        _ => panic!("hex escapes must decode"),
    }
    // A surrogate pair decodes to one character beyond the basic plane.
    match parse_json("\"\\uD83D\\uDE00\"") {
        Some(JsonVal::Str(s)) => assert_eq!(s, "😀"),
        _ => panic!("surrogate pairs must decode"),
    }
    // A lone surrogate is unreadable.
    assert!(parse_json("\"\\uD83D\"").is_none());
    assert!(parse_json("\"\\u12G4\"").is_none());
    // Control characters are written as escapes, and the text round-trips.
    let v = JsonVal::Str("a\u{0001}b\u{0008}c\u{000C}d".to_string());
    let text = to_json_text(&v);
    assert_eq!(text, "\"a\\u0001b\\bc\\fd\"");
    match parse_json(&text) {
        Some(JsonVal::Str(s)) => assert_eq!(s, "a\u{0001}b\u{0008}c\u{000C}d"),
        _ => panic!("control escapes must decode"),
    }
    let re: serde_json::Value = serde_json::from_str(&text).expect("valid JSON");
    assert_eq!(re, serde_json::Value::String("a\u{0001}b\u{0008}c\u{000C}d".to_string()));
}

#[test]
fn parse_nested() {
    let v = parse_json(" {\"a\": [1, {\"b\": \"x\\ny\"}], \"c\": null} ").expect("parses");
    let text = to_json_text(&v);
    assert_eq!(text, "{\"a\":[1,{\"b\":\"x\\ny\"}],\"c\":null}");
}

#[test]
fn parse_encode_round_trip_concrete() {
    for text in [
        "null",
        "-120",
        "\"he\\\"llo\"",
        "[]",
        "{}",
        "[1,2,3]",
        "{\"pi\":2}",
        "{\"a\":{\"b\":[true,false,null]}}",
    ] {
        let v = parse_json(text).expect("parses");
        assert_eq!(to_json_text(&v), text);
    }
}
