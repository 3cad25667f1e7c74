use duga::tools::schema::{error_lines, json_type_name, sanitize_schema, validate_schema, validate_tool_args, Json};

fn s(x: &str) -> String {
    x.to_string()
}

fn string_schema() -> Json {
    Json::Object(vec![(s("type"), Json::Str(s("string")))])
}

/// The schema that a generator gives for a struct with one string field `msg`.
fn generated_args_schema() -> Json {
    Json::Object(vec![
        (s("$schema"), Json::Str(s("http://json-schema.org/draft-07/schema#"))),
        (s("title"), Json::Str(s("Args"))),
        (s("type"), Json::Str(s("object"))),
        (s("required"), Json::Array(vec![Json::Str(s("msg"))])),
        (s("properties"), Json::Object(vec![(s("msg"), string_schema())])),
    ])
}

fn sanitized_args_schema() -> Json {
    let mut schema = generated_args_schema();
    sanitize_schema(&mut schema);
    schema
}

fn is_str(j: Option<&Json>, want: &str) -> bool {
    matches!(j, Some(Json::Str(x)) if x == want)
}

#[test]
fn generated_schema_is_sanitized_and_strict() {
    let schema = sanitized_args_schema();
    assert!(schema.get("$schema").is_none());
    assert!(schema.get("title").is_none());
    assert!(is_str(schema.get("type"), "object"));
    assert!(matches!(schema.get("additionalProperties"), Some(Json::Bool(false))));
}

#[test]
fn validate_tool_args_requires_object() {
    let schema = sanitized_args_schema();
    let err = validate_tool_args(&schema, &Json::Str(s("bad"))).unwrap_err();
    assert!(err.contains("must be a JSON object"));
}

#[test]
fn validate_tool_args_formats_schema_errors() {
    let schema = sanitized_args_schema();
    let err = validate_tool_args(&schema, &Json::Object(vec![])).unwrap_err();
    assert!(err.contains("Schema validation failed"));
    assert!(err.contains("required"));

    let args = Json::Object(vec![(s("msg"), Json::Str(s("ok"))), (s("unexpected"), Json::Bool(true))]);
    let err = validate_tool_args(&schema, &args).unwrap_err();
    assert!(err.contains("Schema validation failed"));
    assert!(err.contains("unexpected"));
}

#[test]
fn validate_tool_args_accepts_matching_object() {
    let schema = sanitized_args_schema();
    let args = Json::Object(vec![(s("msg"), Json::Str(s("hi"))), (s("label"), Json::Str(s("say hi")))]);
    assert_eq!(validate_tool_args(&schema, &args), Ok(()));
}

#[test]
fn not_object_message_names_the_type() {
    let schema = sanitized_args_schema();
    assert_eq!(
        validate_tool_args(&schema, &Json::Array(vec![])).unwrap_err(),
        "Tool arguments must be a JSON object, got array"
    );
    assert_eq!(json_type_name(&Json::Null), "null");
    assert_eq!(json_type_name(&Json::Bool(true)), "boolean");
    assert_eq!(json_type_name(&Json::Number(s("1"))), "number");
}

#[test]
fn schema_failure_lists_each_error_on_its_own_line() {
    let schema = sanitized_args_schema();
    let err = validate_tool_args(&schema, &Json::Object(vec![])).unwrap_err();
    assert!(err.starts_with("Schema validation failed:\n- "));
    let errors = validate_schema(&schema, &Json::Object(vec![])).unwrap_err();
    assert_eq!(errors.len(), 1);
    assert_eq!(err, format!("Schema validation failed:\n- {}", errors[0]));
}

#[test]
fn sanitize_adds_label_property_once() {
    let schema = sanitized_args_schema();
    let props = schema.get("properties").unwrap();
    let label = props.get("label").unwrap();
    assert!(is_str(label.get("type"), "string"));
    assert!(is_str(
        label.get("description"),
        "Brief human-readable description of what this step does (shown to user)"
    ));
    assert!(props.get("msg").is_some());

    let mut again = Json::Object(vec![
        (s("type"), Json::Str(s("object"))),
        (s("properties"), Json::Object(vec![(s("label"), string_schema())])),
    ]);
    sanitize_schema(&mut again);
    assert_eq!(
        again.to_text(),
        "{\"type\":\"object\",\"properties\":{\"label\":{\"type\":\"string\"}},\"additionalProperties\":false}"
    );
}

#[test]
fn sanitize_reaches_nested_objects_and_arrays() {
    let mut schema = Json::Object(vec![
        (s("title"), Json::Str(s("Outer"))),
        (
            s("anyOf"),
            Json::Array(vec![Json::Object(vec![
                (s("title"), Json::Str(s("Inner"))),
                (s("properties"), Json::Object(vec![])),
            ])]),
        ),
    ]);
    sanitize_schema(&mut schema);
    assert_eq!(
        schema.to_text(),
        "{\"anyOf\":[{\"properties\":{\"label\":{\"type\":\"string\",\"description\":\"Brief human-readable description of what this step does (shown to user)\"}},\"type\":\"object\",\"additionalProperties\":false}]}"
    );
}

#[test]
fn non_object_schemas_are_left_alone() {
    let mut schema = Json::Object(vec![(s("type"), Json::Str(s("string"))), (s("title"), Json::Str(s("x")))]);
    sanitize_schema(&mut schema);
    assert_eq!(schema.to_text(), "{\"type\":\"string\"}");
}

#[test]
fn json_text_escapes_strings() {
    let j = Json::Object(vec![(
        s("k\"ey"),
        Json::Array(vec![
            Json::Str(s("a\\b\nc\t\u{1}")),
            Json::Null,
            Json::Bool(false),
            Json::Number(s("-1.5")),
        ]),
    )]);
    assert_eq!(j.to_text(), "{\"k\\\"ey\":[\"a\\\\b\\nc\\t\\u0001\",null,false,-1.5]}");
}

#[test]
fn error_lines_join_path_and_message() {
    let check = Ok(vec![(s("/msg"), s("1 is not of type \"string\"")), (s(""), s("\"x\" is a required property"))]);
    assert_eq!(
        error_lines(check),
        vec![s("/msg: 1 is not of type \"string\""), s(": \"x\" is a required property")]
    );
    assert_eq!(error_lines(Err(s("schema does not compile"))), vec![s("schema does not compile")]);
    assert!(error_lines(Ok(vec![])).is_empty());
}
