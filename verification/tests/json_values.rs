use tideorm::json::{to_json_text, JsonValue};

#[test]
fn json_strings_are_written_with_serde_json_escapes() {
    let text = JsonValue::Str("a\"b\\c\n\t\u{1}\u{1f}é/".to_string());
    assert_eq!(to_json_text(&text), "\"a\\\"b\\\\c\\n\\t\\u0001\\u001fé/\"");
    assert_eq!(to_json_text(&JsonValue::Str(String::new())), "\"\"");
    assert_eq!(to_json_text(&JsonValue::Int(-3)), "-3");
    assert_eq!(to_json_text(&JsonValue::Null), "null");
}
