use andromeda::json::{JsonValue, Number};
use andromeda::keyed::Keyed;
use andromeda::text::{
    concat3, contains, decimal, decimal_signed, join, parse_u64, split_words, starts_with, trim,
};

#[test]
fn json_is_read_and_written() {
    let text = r#"{"a":[1,-2,2.5,"x\n",true,false,null],"b":{}}"#;
    let value = JsonValue::parse(text).unwrap();
    assert_eq!(value.to_text(), text);
    assert_eq!(
        value.get("a").and_then(|a| a.as_array()).map(|a| a.len()),
        Some(7)
    );
    assert!(JsonValue::parse("{").is_none());
    assert!(JsonValue::parse("").is_none());
}

#[test]
fn entries_that_are_read_are_in_order() {
    assert_eq!(
        JsonValue::parse(r#"{"b":1,"a":2,"b":3}"#).unwrap().to_text(),
        r#"{"a":2,"b":3}"#
    );
}

#[test]
fn values_are_looked_at() {
    let value = JsonValue::object2(
        "n",
        JsonValue::Number(Number::PosInt(7)),
        "s",
        JsonValue::string("text"),
    );
    assert_eq!(value.get("n").unwrap().as_u64(), Some(7));
    assert_eq!(value.get("n").unwrap().as_bool(), None);
    assert_eq!(value.str_field("s"), Some("text"));
    assert_eq!(value.str_field("n"), None);
    assert_eq!(value.get("x"), None);
    assert_eq!(JsonValue::Bool(true).as_bool(), Some(true));
}

#[test]
fn large_and_odd_numbers_keep_their_text() {
    assert_eq!(JsonValue::parse("1e400"), None);
    assert_eq!(
        JsonValue::parse("18446744073709551615").unwrap(),
        JsonValue::Number(Number::PosInt(u64::MAX))
    );
    assert_eq!(JsonValue::parse("-9").unwrap().to_text(), "-9");
    assert_eq!(JsonValue::parse("0.5").unwrap().to_text(), "0.5");
}

#[test]
fn texts_are_cut_and_joined() {
    assert_eq!(trim(" \u{3000}a b\t"), "a b");
    assert_eq!(split_words(" a  b\nc "), vec!["a", "b", "c"]);
    assert_eq!(join(&vec!["a".to_string(), "b".to_string()], ", "), "a, b");
    assert_eq!(concat3("a", "b", "c"), "abc");
    assert!(starts_with("abc", "ab"));
    assert!(!starts_with("a", "ab"));
    assert!(contains("hello", "ell"));
    assert!(!contains("hello", "elo"));
}

#[test]
fn numbers_are_written_and_read() {
    assert_eq!(decimal(0), "0");
    assert_eq!(decimal(u64::MAX), "18446744073709551615");
    assert_eq!(decimal_signed(i64::MIN), "-9223372036854775808");
    assert_eq!(parse_u64("42"), Some(42));
    assert_eq!(parse_u64("+42"), Some(42));
    assert_eq!(parse_u64("18446744073709551616"), None);
    assert_eq!(parse_u64(""), None);
    assert_eq!(parse_u64("4 2"), None);
}

#[test]
fn entries_are_found_by_their_keys() {
    let mut map: Keyed<u32> = Keyed::new();
    map.insert("a".into(), 1);
    map.insert("b".into(), 2);
    map.insert("a".into(), 3);
    assert_eq!(map.len(), 2);
    assert_eq!(map.get("a"), Some(&3));
    *map.get_mut("b").unwrap() = 5;
    assert_eq!(map.remove("b"), Some(5));
    assert_eq!(map.remove("b"), None);
    map.clear();
    assert!(map.is_empty());
}

#[test]
fn strings_are_quoted_and_escaped() {
    let text = JsonValue::string("a\"b\\c\u{8}\t\n\u{c}\r\u{1}\u{1f}/\u{7f}é").to_text();
    assert_eq!(
        text,
        "\"a\\\"b\\\\c\\b\\t\\n\\f\\r\\u0001\\u001f/\u{7f}é\""
    );
    let back = JsonValue::parse(&text).unwrap();
    assert_eq!(back.as_str(), Some("a\"b\\c\u{8}\t\n\u{c}\r\u{1}\u{1f}/\u{7f}é"));
}
