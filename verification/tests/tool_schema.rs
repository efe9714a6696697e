use swiftide_integrations::responses::SchemaPath;
use swiftide_integrations::tool_schema::{
    apply_schema_pipeline, first_issue, validate_openai_compatibility, JsonValue,
    OpenAiToolSchemaError, SchemaIssueKind,
};

fn convert(value: &serde_json::Value) -> JsonValue {
    match value {
        serde_json::Value::Null => JsonValue::Null,
        serde_json::Value::Bool(b) => JsonValue::Bool(*b),
        serde_json::Value::Number(n) => JsonValue::Number(n.to_string()),
        serde_json::Value::String(s) => JsonValue::Str(s.clone()),
        serde_json::Value::Array(items) => JsonValue::Array(items.iter().map(convert).collect()),
        serde_json::Value::Object(members) => JsonValue::Object(
            members.iter().map(|(k, v)| (k.clone(), convert(v))).collect(),
        ),
    }
}

fn schema(text: &str) -> JsonValue {
    convert(&serde_json::from_str::<serde_json::Value>(text).unwrap())
}

#[test]
fn openai_tool_schema_rejects_non_nullable_one_of() {
    let value = schema(
        r#"{"type":"object","properties":{"content":{"oneOf":[{"type":"string"},{"type":"integer"}]}}}"#,
    );
    let error = validate_openai_compatibility(&value).expect_err("oneOf should be rejected");
    assert!(error.to_display_string().contains("`oneOf`"));
    assert_eq!(
        error.to_display_string(),
        "OpenAI strict tool schemas do not support `oneOf` at $.properties.content"
    );
}

#[test]
fn array_valued_type_is_rejected_with_its_path() {
    let value = schema(
        r#"{"type":"object","properties":{"page_size":{"type":["integer","null"],"minimum":0}}}"#,
    );
    match validate_openai_compatibility(&value) {
        Err(OpenAiToolSchemaError::UnsupportedTypeUnion { path }) => {
            assert_eq!(path, "$.properties.page_size")
        }
        _ => panic!("expected a type union error"),
    }
}

#[test]
fn nested_schemas_are_walked_in_order() {
    let value = schema(
        r#"{"anyOf":[{"type":"string"},{"items":{"oneOf":[]}}],"properties":{"a":{"type":["x"]}}}"#,
    );
    let issue = first_issue(&value, &SchemaPath::root()).unwrap();
    assert_eq!(issue.0, SchemaIssueKind::OneOf);
    assert_eq!(issue.1.to_display_string(), "$.anyOf.1.items");
}

#[test]
fn compatible_schema_passes_unchanged() {
    let value = schema(
        r#"{"type":"object","properties":{"request":{"type":"object","required":["body"],"properties":{"body":{"anyOf":[{"type":"string"},{"type":"null"}]}}}},"$defs":{"x":{"type":"integer"}}}"#,
    );
    assert!(validate_openai_compatibility(&value).is_ok());
    assert!(apply_schema_pipeline(value).is_ok());
    assert!(validate_openai_compatibility(&JsonValue::Bool(true)).is_ok());
}
