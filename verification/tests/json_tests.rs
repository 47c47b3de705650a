use remote_prover::json::{to_json_string, JsonValue};

#[test]
fn scalars_render_compactly() {
    assert_eq!(to_json_string(&JsonValue::Null), "null");
    assert_eq!(to_json_string(&JsonValue::Bool(true)), "true");
    assert_eq!(to_json_string(&JsonValue::Bool(false)), "false");
    assert_eq!(
        to_json_string(&JsonValue::NumberLit("42".to_owned())),
        "42"
    );
    assert_eq!(
        to_json_string(&JsonValue::Text("plain".to_owned())),
        "\"plain\""
    );
}

#[test]
fn strings_are_escaped() {
    assert_eq!(
        to_json_string(&JsonValue::Text("say \"hi\"".to_owned())),
        "\"say \\\"hi\\\"\""
    );
    assert_eq!(
        to_json_string(&JsonValue::Text("a\\b".to_owned())),
        "\"a\\\\b\""
    );
    assert_eq!(
        to_json_string(&JsonValue::Text("line\nbreak\tand\rmore".to_owned())),
        "\"line\\nbreak\\tand\\rmore\""
    );
    assert_eq!(
        to_json_string(&JsonValue::Text("\u{1}".to_owned())),
        "\"\\u0001\""
    );
    assert_eq!(
        to_json_string(&JsonValue::Text("\u{1f}".to_owned())),
        "\"\\u001f\""
    );
}

#[test]
fn containers_render_in_order() {
    let arr = JsonValue::Array(vec![
        JsonValue::NumberLit("1".to_owned()),
        JsonValue::Text("two".to_owned()),
        JsonValue::Null,
    ]);
    assert_eq!(to_json_string(&arr), "[1,\"two\",null]");
    let obj = JsonValue::Object(vec![
        ("a".to_owned(), JsonValue::Bool(true)),
        ("b".to_owned(), JsonValue::Array(vec![])),
        ("c".to_owned(), JsonValue::Object(vec![])),
    ]);
    assert_eq!(to_json_string(&obj), "{\"a\":true,\"b\":[],\"c\":{}}");
}

#[test]
fn rendered_documents_parse_back() {
    let obj = JsonValue::Object(vec![
        ("name".to_owned(), JsonValue::Text("add \"quotes\"".to_owned())),
        (
            "values".to_owned(),
            JsonValue::Array(vec![
                JsonValue::NumberLit("18446744073709551615".to_owned()),
                JsonValue::Bool(false),
            ]),
        ),
    ]);
    let rendered = to_json_string(&obj);
    let parsed: serde_json::Value = serde_json::from_str(&rendered).expect("valid JSON");
    assert_eq!(parsed["name"], "add \"quotes\"");
    assert_eq!(parsed["values"][0], serde_json::Value::from(u64::MAX));
    assert_eq!(parsed["values"][1], false);
}
