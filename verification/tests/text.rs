use technique_generator::json_value::{JsonNumber, JsonValue};
use technique_generator::text::{
    push_decimal, push_digits, push_escaped, push_escaped_char, push_quoted,
};

fn decimal(i: i64) -> String {
    let mut out = String::new();
    push_decimal(&mut out, i);
    out
}

fn quoted(s: &str) -> String {
    let mut out = String::new();
    push_quoted(&mut out, s);
    out
}

#[test]
fn digits_of_small_and_large_numbers() {
    let mut out = String::from("n=");
    push_digits(&mut out, 0);
    assert_eq!(out, "n=0");
    let mut out = String::new();
    push_digits(&mut out, 9);
    push_digits(&mut out, 10);
    push_digits(&mut out, 18446744073709551615);
    assert_eq!(out, "91018446744073709551615");
}

#[test]
fn decimal_of_zero_and_of_the_two_ends() {
    assert_eq!(decimal(0), "0");
    assert_eq!(decimal(7), "7");
    assert_eq!(decimal(-1), "-1");
    assert_eq!(decimal(1234567890), "1234567890");
    assert_eq!(decimal(-1002003), "-1002003");
    assert_eq!(decimal(i64::MAX), "9223372036854775807");
    assert_eq!(decimal(i64::MIN), "-9223372036854775808");
}

#[test]
fn decimal_appends_to_what_is_there() {
    let mut out = String::from("x");
    push_decimal(&mut out, -42);
    push_decimal(&mut out, 42);
    assert_eq!(out, "x-4242");
}

#[test]
fn plain_text_is_quoted_as_it_is() {
    assert_eq!(quoted(""), "\"\"");
    assert_eq!(quoted("nginx"), "\"nginx\"");
    assert_eq!(quoted("caf\u{e9} \u{1f600}"), "\"caf\u{e9} \u{1f600}\"");
    assert_eq!(quoted("a/b 'c'"), "\"a/b 'c'\"");
    assert_eq!(quoted("\u{7f}"), "\"\u{7f}\"");
}

#[test]
fn quotation_mark_and_backslash_are_escaped() {
    assert_eq!(quoted("a\"b"), r#""a\"b""#);
    assert_eq!(quoted("a\\b"), r#""a\\b""#);
    assert_eq!(quoted("\\\""), r#""\\\"""#);
}

#[test]
fn control_characters_are_escaped() {
    assert_eq!(quoted("\n\r\t\u{8}\u{c}"), r#""\n\r\t\b\f""#);
    assert_eq!(quoted("\u{0}"), r#""\u0000""#);
    assert_eq!(quoted("\u{1}x\u{1f}"), r#""\u0001x\u001f""#);
    assert_eq!(quoted("\u{b}\u{1b}"), r#""\u000b\u001b""#);
    assert_eq!(quoted(" "), "\" \"");
}

#[test]
fn escaping_one_character_and_a_text() {
    let mut out = String::new();
    push_escaped_char(&mut out, 'a');
    push_escaped_char(&mut out, '"');
    push_escaped_char(&mut out, '\u{10}');
    assert_eq!(out, "a\\\"\\u0010");
    let mut out = String::from("[");
    push_escaped(&mut out, "x\ty");
    assert_eq!(out, "[x\\ty");
}

#[test]
fn scalars_render() {
    assert_eq!(JsonValue::Null.to_text(), "null");
    assert_eq!(JsonValue::Bool(true).to_text(), "true");
    assert_eq!(JsonValue::Bool(false).to_text(), "false");
    assert_eq!(JsonValue::Number(JsonNumber::Integer(-12)).to_text(), "-12");
    assert_eq!(
        JsonValue::Number(JsonNumber::Decimal { mantissa: 15, exponent: -1 }).to_text(),
        "15e-1"
    );
    assert_eq!(
        JsonValue::Number(JsonNumber::Decimal { mantissa: -3, exponent: 20 }).to_text(),
        "-3e20"
    );
    assert_eq!(
        JsonValue::Number(JsonNumber::Decimal { mantissa: 0, exponent: i32::MIN }).to_text(),
        "0e-2147483648"
    );
    assert_eq!(JsonValue::String("a\"b".to_string()).to_text(), r#""a\"b""#);
}

#[test]
fn arrays_and_objects_render_in_order() {
    assert_eq!(JsonValue::Array(vec![]).to_text(), "[]");
    assert_eq!(JsonValue::Object(vec![]).to_text(), "{}");
    assert_eq!(JsonValue::Array(vec![JsonValue::Null]).to_text(), "[null]");
    let tree = JsonValue::Object(vec![
        ("b".to_string(), JsonValue::Array(vec![
            JsonValue::Number(JsonNumber::Integer(1)),
            JsonValue::Array(vec![]),
            JsonValue::Object(vec![("k".to_string(), JsonValue::Bool(false))]),
        ])),
        ("a".to_string(), JsonValue::String("x".to_string())),
        ("a b".to_string(), JsonValue::Null),
    ]);
    assert_eq!(tree.to_text(), r#"{"b":[1,[],{"k":false}],"a":"x","a b":null}"#);
}

#[test]
fn write_appends_to_what_is_there() {
    let mut out = String::from("x=");
    JsonValue::Array(vec![JsonValue::Bool(true), JsonValue::Null]).write(&mut out);
    assert_eq!(out, "x=[true,null]");
    let mut out = String::from("n:");
    JsonNumber::Integer(5).write(&mut out);
    assert_eq!(out, "n:5");
}
