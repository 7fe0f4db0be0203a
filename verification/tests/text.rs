use mcpg_cli_core::json::{json_of, parse_json, same_json, Json, JsonNumber};
use mcpg_cli_core::text::{
    digits_string, join, lines, nth_one, same, signed_string, strip_prefix, trim, trim_end_matches,
};

#[test]
fn trimming_agrees_with_std_on_every_character() {
    for c in '\0'..=char::MAX {
        let s = format!("{c}x{c}");
        assert_eq!(trim(&s), s.trim());
    }
    for s in ["", " ", " \t\n", "a b", "  a  b  ", "\u{2003}é\u{85}"] {
        assert_eq!(trim(s), s.trim());
    }
}

#[test]
fn lines_agree_with_std() {
    for s in ["", "\n", "a", "a\n", "a\r\nb\r", "\r\n\r\n", "a\n\nb", "a\r\r\nb", "\r"] {
        let expected: Vec<&str> = s.lines().collect();
        assert_eq!(lines(s), expected);
    }
}

#[test]
fn the_other_parts_of_text_agree_with_std() {
    for s in ["", "/", "//", "a/", "a//", "/a/b", "é/"] {
        assert_eq!(trim_end_matches(s, '/'), s.trim_end_matches('/'));
    }
    for s in ["", "mcpg", "mcpg-", "mcpg-cloud", "x-mcpg-"] {
        assert_eq!(strip_prefix(s, "mcpg-").as_deref(), s.strip_prefix("mcpg-"));
    }
    for s in ["", "a", "a.b", "a.b.c", ".", "..", "a..c", "a.é"] {
        assert_eq!(nth_one(s, '.').as_deref(), s.split('.').nth(1));
    }
    assert_eq!(join(&[], " "), "");
    assert_eq!(join(&["a"], " "), "a");
    assert_eq!(join(&["openid", "email", "profile"], " "), "openid email profile");
    assert!(same("é", "é"));
    assert!(!same("a", "A"));
}

#[test]
fn numbers_are_written_in_decimal() {
    for n in [0, 1, 9, 10, 1_000_000, u64::MAX] {
        assert_eq!(digits_string(n), n.to_string());
    }
    for n in [0, 7, -1, -10, i64::MAX, i64::MIN] {
        assert_eq!(signed_string(n), n.to_string());
    }
}

#[test]
fn json_is_read_as_it_stands() {
    assert_eq!(parse_json(b""), None);
    assert_eq!(parse_json(b"{\"a\":1} x"), None);
    assert_eq!(
        parse_json(
            r#"{"a":[null,true,"sé",-3,18446744073709551615,1.75e3,-2.9]}"#.as_bytes()
        ),
        Some(Json::Object(vec![(
            "a".to_owned(),
            Json::Array(vec![
                Json::Null,
                Json::Bool(true),
                Json::Str("sé".to_owned()),
                Json::Number(JsonNumber::Negative(-3)),
                Json::Number(JsonNumber::Unsigned(u64::MAX)),
                Json::Number(JsonNumber::Fractional(1750)),
                Json::Number(JsonNumber::Fractional(-2)),
            ])
        )]))
    );
    // Of a name that comes twice the last value counts.
    let twice = parse_json(br#"{"a":1,"a":2}"#).unwrap();
    assert_eq!(twice.get("a"), Some(&Json::Number(JsonNumber::Unsigned(2))));
    assert_eq!(twice.get_str("a"), None);
    assert_eq!(json_of(serde_json::Value::from("t")).as_str(), Some("t"));
    assert_eq!(Json::Null.get("a"), None);
}

#[test]
fn copies_of_values_are_the_same() {
    let documents = ["null", "true", "[]", "[1,-2,[\"x\"]]", "{}", "{\"a\":{\"b\":[null]},\"c\":1}"];
    for (i, a) in documents.iter().enumerate() {
        let value = parse_json(a.as_bytes()).unwrap();
        assert!(same_json(&value, &value.clone()));
        assert_eq!(value.clone(), value);
        for b in &documents[i + 1..] {
            assert!(!same_json(&value, &parse_json(b.as_bytes()).unwrap()));
        }
    }
}
