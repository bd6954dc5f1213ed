//! Tests of the JSON value model: number rendering, value layout, flat
//! lengths, the character walker, and the stubbed readers.

use envtool::json::{from_string, to_string, JsonError, Number, Object, TextParser, Value};

fn number(positive: bool, coef: &str, expo_positive: bool, expo: &str) -> Number {
    Number {
        is_positive: positive,
        coef: coef.to_owned(),
        is_expo_positive: expo_positive,
        expo: expo.to_owned(),
    }
}

#[test]
fn number_formats() {
    assert_eq!(number(true, "31415", true, "4").format(), "3.1415E4");
    assert_eq!(number(false, "5", false, "3").format(), "-5E-3");
    assert_eq!(number(true, "", true, "").format(), "0");
    assert_eq!(number(true, "7", true, "").format(), "7");
    assert_eq!(number(false, "25", true, "").format(), "-2.5");
    assert_eq!(number(false, "25", true, "").len(), 4);
}

#[test]
fn number_values_not_read_yet() {
    let n = Number::new();
    assert!(n.as_u64().is_none());
    assert!(n.as_i64().is_none());
    assert!(n.is_positive && n.coef.is_empty());
}

#[test]
fn flat_lengths() {
    assert_eq!(Value::Null.flat_len(), 4);
    assert_eq!(Value::Boolean(true).flat_len(), 4);
    assert_eq!(Value::Boolean(false).flat_len(), 5);
    assert_eq!(Value::Text("abc".to_owned()).flat_len(), 5);
    assert_eq!(Value::Number(number(false, "25", true, "")).flat_len(), 4);
    assert_eq!(Value::Array(vec![Value::Null, Value::Boolean(true)]).flat_len(), 10);
    let object = Object { pairs: vec![("a".to_owned(), Value::Null)] };
    assert_eq!(object.flat_len(), 13);
    assert_eq!(Value::Object(object).flat_len(), 13);
    assert_eq!(Object::new().flat_len(), 2);
}

#[test]
fn reading_is_a_stub() {
    assert_eq!(Value::new(), Value::Null);
    assert_eq!(Value::from_string("[1, 2]".to_owned()), Value::Null);
    match from_string("{}".to_owned()) {
        Ok(Value::Null) => {}
        other => panic!("unexpected result: {:?}", other),
    }
    assert_eq!(to_string(Object::new()), "");
    assert_ne!(JsonError::InvalidNumber, JsonError::UnexpectedEOF);
}

#[test]
fn scalars_render_with_indent_prefix() {
    assert_eq!(Value::Null.format(0, false), "null");
    assert_eq!(Value::Null.format(1, false), "    null");
    assert_eq!(Value::Null.format(2, true), "null");
    assert_eq!(Value::Boolean(true).format(0, false), "true");
    assert_eq!(Value::Boolean(false).format(1, false), "    false");
    assert_eq!(Value::Number(number(false, "25", true, "")).format(1, false), "    -2.5");
    assert_eq!(Value::Text("plain".to_owned()).format(0, true), "\"plain\"");
}

#[test]
fn quoted_text_is_escaped() {
    let value = Value::Text("a\"b\\c\nd\u{8}e\u{1f}\tf".to_owned());
    assert_eq!(
        value.format(0, true),
        "\"a\\\"b\\\\c\\nd\\u{8}e\\u{1f}\\tf\"",
    );
}

#[test]
fn arrays_render_inline_when_they_fit() {
    assert_eq!(Value::Array(vec![]).format(0, false), "[ ]");
    assert_eq!(Value::Array(vec![]).format(1, false), "    [ ]");
    let small = Value::Array(vec![Value::Null, Value::Boolean(true)]);
    assert_eq!(small.format(0, false), "[null, true, \u{8}\u{8}]");

    let long = "a".repeat(100);
    let wide = Value::Array(vec![Value::Text(long.clone())]);
    let expected = format!("\n[\n    \"{}\", \u{8}\u{8}\n]", long);
    assert_eq!(wide.format(0, false), expected);
}

#[test]
fn objects_render_braced() {
    assert_eq!(Object::new().format(0, false), "{ }");
    // the object's own indent stands even inline
    assert_eq!(Object::new().format(1, true), "    { }");

    let small = Object { pairs: vec![("a".to_owned(), Value::Null)] };
    assert_eq!(small.format(0, false), "{ \"a\": null, \u{8}\u{8} }");
    assert_eq!(Value::Object(small).format(0, false), "{ \"a\": null, \u{8}\u{8} }");

    let long = "a".repeat(100);
    let wide = Object { pairs: vec![("k".to_owned(), Value::Text(long.clone()))] };
    let expected = format!("{{ \n    \"k\":     \"{}\", \u{8}\u{8}\n}}", long);
    assert_eq!(wide.format(0, false), expected);
}

#[test]
fn text_parser_walks_lines() {
    let mut parser = TextParser::new("ab\ncd\r\ne".to_owned());
    assert_eq!(parser.next_char(), Some('a'));
    assert_eq!(parser.next_char(), Some('b'));
    assert_eq!(parser.next_char(), Some('\n'));
    assert_eq!(parser.next_char(), Some('c'));
    assert_eq!(parser.next_char(), Some('d'));
    // the carriage-return line-feed pair arrives as one line feed
    assert_eq!(parser.next_char(), Some('\n'));
    assert_eq!(parser.next_char(), Some('e'));
    assert_eq!(parser.next_char(), None);
    assert_eq!(parser.next_char(), None);
}
