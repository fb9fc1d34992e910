use pacts::{Envelope, Header, JsonValue, SchemaLoader, Validator};

fn text(s: &str) -> JsonValue {
    JsonValue::Text(s.to_string())
}

fn obj(pairs: Vec<(&str, JsonValue)>) -> JsonValue {
    JsonValue::Object(pairs.into_iter().map(|(k, v)| (k.to_string(), v)).collect())
}

fn test_validator() -> Validator {
    Validator::new(SchemaLoader::new(
        "schemas".to_string(),
        "bees".to_string(),
        "v1".to_string(),
    ))
}

#[test]
fn test_validator_new() {
    let validator = test_validator();
    assert_eq!(validator.schema_loader.get_schema_root(), "schemas");
}

#[test]
fn test_validator_with_schema_loader() {
    let loader = SchemaLoader::new(
        "custom/path".to_string(),
        "bees".to_string(),
        "v1".to_string(),
    );
    let validator = Validator::with_schema_loader(loader);
    assert_eq!(validator.schema_loader.get_schema_root(), "custom/path");
}

#[test]
fn test_validate_envelope_with_empty_schema_id() {
    let validator = test_validator();
    let header = Header::new("1.0".to_string(), "".to_string(), "".to_string());
    let envelope = Envelope::new(header, obj(vec![]));

    let result = validator.validate(&envelope);

    assert!(!result.is_valid());
    assert!(result
        .errors()
        .contains(&"Schema category is required in header".to_string()));
    assert!(result
        .errors()
        .contains(&"Schema name is required in header".to_string()));
}

#[test]
fn test_validate_envelope_with_empty_schema_version() {
    let validator = test_validator();
    let header = Header::new("".to_string(), "test".to_string(), "test-schema".to_string());
    let envelope = Envelope::new(header, obj(vec![]));

    let result = validator.validate(&envelope);

    assert!(!result.is_valid());
    assert!(result
        .errors()
        .contains(&"Schema version is required in header".to_string()));
}

#[test]
fn test_validate_envelope_with_non_existent_schema() {
    let validator = test_validator();
    let header = Header::new(
        "1.0".to_string(),
        "test".to_string(),
        "non-existent-schema".to_string(),
    );
    let envelope = Envelope::new(header, obj(vec![]));

    let result = validator.validate(&envelope);

    assert!(!result.is_valid());
    assert!(result
        .errors()
        .contains(&"Schema not found: test/non-existent-schema version v1".to_string()));
}

#[test]
fn test_validate_data_with_valid_object() {
    let validator = test_validator();
    let schema = obj(vec![
        ("type", text("object")),
        (
            "required",
            JsonValue::Array(vec![text("id"), text("name")]),
        ),
        (
            "properties",
            obj(vec![
                ("id", obj(vec![("type", text("string"))])),
                ("name", obj(vec![("type", text("string"))])),
            ]),
        ),
    ]);
    let data = obj(vec![("id", text("123")), ("name", text("Test Item"))]);

    let result = validator.validate_data(&data, &schema);

    assert!(result.is_valid());
    assert!(result.errors().is_empty());
}

#[test]
fn test_validate_data_with_missing_required_field() {
    let validator = test_validator();
    let schema = obj(vec![
        ("type", text("object")),
        (
            "required",
            JsonValue::Array(vec![text("id"), text("name")]),
        ),
        (
            "properties",
            obj(vec![
                ("id", obj(vec![("type", text("string"))])),
                ("name", obj(vec![("type", text("string"))])),
            ]),
        ),
    ]);
    let data = obj(vec![("id", text("123"))]);

    let result = validator.validate_data(&data, &schema);

    assert!(!result.is_valid());
    assert!(result
        .errors()
        .contains(&"Required field missing: name".to_string()));
}

#[test]
fn test_validate_data_with_wrong_type() {
    let validator = test_validator();
    let schema = obj(vec![
        ("type", text("array")),
        ("required", JsonValue::Array(vec![text("id")])),
    ]);
    let data = obj(vec![("id", text("123"))]);

    let result = validator.validate_data(&data, &schema);

    assert!(!result.is_valid());
    assert!(result
        .errors()
        .contains(&"Invalid type. Expected: array".to_string()));
}

#[test]
fn test_validate_type_object() {
    let validator = test_validator();
    let data = obj(vec![("key", text("value"))]);

    assert!(validator
        .validate_data(&data, &obj(vec![("type", text("object"))]))
        .is_valid());
}

#[test]
fn test_validate_type_array() {
    let validator = test_validator();
    let data = JsonValue::Array(vec![
        JsonValue::Number(1),
        JsonValue::Number(2),
        JsonValue::Number(3),
    ]);

    assert!(validator
        .validate_data(&data, &obj(vec![("type", text("array"))]))
        .is_valid());
}

#[test]
fn test_validate_type_string() {
    let validator = test_validator();
    let data = text("test string");

    assert!(validator
        .validate_data(&data, &obj(vec![("type", text("string"))]))
        .is_valid());
}

#[test]
fn test_validate_type_number() {
    let validator = test_validator();
    let data = JsonValue::Number(42);

    assert!(validator
        .validate_data(&data, &obj(vec![("type", text("number"))]))
        .is_valid());
}

#[test]
fn test_validate_type_boolean() {
    let validator = test_validator();
    let data = JsonValue::Boolean(true);

    assert!(validator
        .validate_data(&data, &obj(vec![("type", text("boolean"))]))
        .is_valid());
}

#[test]
fn test_validate_type_null() {
    let validator = test_validator();
    let data = JsonValue::Null;

    assert!(validator
        .validate_data(&data, &obj(vec![("type", text("null"))]))
        .is_valid());
}

#[test]
fn test_validate_data_with_no_required_fields() {
    let validator = test_validator();
    let schema = obj(vec![
        ("type", text("object")),
        (
            "properties",
            obj(vec![
                ("id", obj(vec![("type", text("string"))])),
                ("name", obj(vec![("type", text("string"))])),
            ]),
        ),
    ]);
    let data = obj(vec![]);

    let result = validator.validate_data(&data, &schema);

    assert!(result.is_valid());
    assert!(result.errors().is_empty());
}

#[test]
fn test_validate_data_with_no_type_specified() {
    let validator = test_validator();
    let schema = obj(vec![("required", JsonValue::Array(vec![text("id")]))]);
    let data = obj(vec![("id", text("123"))]);

    let result = validator.validate_data(&data, &schema);

    assert!(result.is_valid());
    assert!(result.errors().is_empty());
}

#[test]
fn test_validate_data_with_complex_nested_object() {
    let validator = test_validator();
    let schema = obj(vec![
        ("type", text("object")),
        ("required", JsonValue::Array(vec![text("user")])),
        ("properties", obj(vec![("user", obj(vec![("type", text("object"))]))])),
    ]);
    let data = obj(vec![(
        "user",
        obj(vec![("name", text("John")), ("age", JsonValue::Number(30))]),
    )]);

    let result = validator.validate_data(&data, &schema);

    assert!(result.is_valid());
    assert!(result.errors().is_empty());
}

#[test]
fn test_validate_data_with_array() {
    let validator = test_validator();
    let schema = obj(vec![
        ("type", text("object")),
        ("required", JsonValue::Array(vec![text("items")])),
        ("properties", obj(vec![("items", obj(vec![("type", text("array"))]))])),
    ]);
    let data = obj(vec![(
        "items",
        JsonValue::Array(vec![text("item1"), text("item2"), text("item3")]),
    )]);

    let result = validator.validate_data(&data, &schema);

    assert!(result.is_valid());
    assert!(result.errors().is_empty());
}

#[test]
fn test_validate_with_entirely_empty_header() {
    let validator = test_validator();
    let header = Header::new("".to_string(), "".to_string(), "".to_string());
    let envelope = Envelope::new(header, obj(vec![("id", text("1"))]));

    let result = validator.validate(&envelope);

    assert!(!result.is_valid());
    assert_eq!(result.errors(), &vec!["Header is required".to_string()]);
}

#[test]
fn test_validate_data_wrong_property_type() {
    let validator = test_validator();
    let schema = obj(vec![(
        "properties",
        obj(vec![("age", obj(vec![("type", text("number"))]))]),
    )]);
    let data = obj(vec![("age", text("thirty"))]);

    let result = validator.validate_data(&data, &schema);

    assert!(!result.is_valid());
    assert_eq!(
        result.errors(),
        &vec!["Invalid type for field 'age'. Expected: number".to_string()]
    );
}

#[test]
fn test_validate_data_unknown_type_is_permissive() {
    let validator = test_validator();
    let schema = obj(vec![("type", text("integer"))]);
    let data = text("anything");

    let result = validator.validate_data(&data, &schema);

    assert!(result.is_valid());
}

#[test]
fn test_validate_data_accumulates_all_errors() {
    let validator = test_validator();
    let schema = obj(vec![
        ("type", text("array")),
        ("required", JsonValue::Array(vec![text("id")])),
        (
            "properties",
            obj(vec![("name", obj(vec![("type", text("string"))]))]),
        ),
    ]);
    let data = obj(vec![("name", JsonValue::Number(7))]);

    let result = validator.validate_data(&data, &schema);

    assert!(!result.is_valid());
    assert_eq!(
        result.errors(),
        &vec![
            "Required field missing: id".to_string(),
            "Invalid type. Expected: array".to_string(),
            "Invalid type for field 'name'. Expected: string".to_string(),
        ]
    );
}

#[test]
fn test_empty_object_missing_required_id() {
    let validator = test_validator();
    let schema = obj(vec![
        ("type", text("object")),
        ("required", JsonValue::Array(vec![text("id")])),
    ]);
    let data = obj(vec![]);

    let result = validator.validate_data(&data, &schema);

    assert!(!result.is_valid());
    assert_eq!(result.errors(), &vec!["Required field missing: id".to_string()]);
}

#[test]
fn test_object_with_required_id_is_valid() {
    let validator = test_validator();
    let schema = obj(vec![
        ("type", text("object")),
        ("required", JsonValue::Array(vec![text("id")])),
    ]);
    let data = obj(vec![("id", text("1"))]);

    let result = validator.validate_data(&data, &schema);

    assert!(result.is_valid());
    assert!(result.errors().is_empty());
}

#[test]
fn test_object_against_array_schema() {
    let validator = test_validator();
    let schema = obj(vec![("type", text("array"))]);
    let data = obj(vec![("id", text("1"))]);

    let result = validator.validate_data(&data, &schema);

    assert!(!result.is_valid());
    assert!(result
        .errors()
        .contains(&"Invalid type. Expected: array".to_string()));
}

#[test]
fn test_shadowed_property_binding_is_ignored() {
    let validator = test_validator();
    // The same property name bound twice: only the last binding is the
    // document's field, so only its declared type is checked.
    let schema = obj(vec![(
        "properties",
        obj(vec![
            ("a", obj(vec![("type", text("number"))])),
            ("a", obj(vec![("type", text("string"))])),
        ]),
    )]);
    let data = obj(vec![("a", text("textual"))]);

    let result = validator.validate_data(&data, &schema);

    assert!(result.is_valid());
    assert!(result.errors().is_empty());
}

#[test]
fn test_last_property_binding_governs() {
    let validator = test_validator();
    let schema = obj(vec![(
        "properties",
        obj(vec![
            ("a", obj(vec![("type", text("number"))])),
            ("a", obj(vec![("type", text("string"))])),
        ]),
    )]);
    let data = obj(vec![("a", JsonValue::Number(5))]);

    let result = validator.validate_data(&data, &schema);

    assert!(!result.is_valid());
    assert_eq!(
        result.errors(),
        &vec!["Invalid type for field 'a'. Expected: string".to_string()]
    );
}

#[test]
fn test_property_check_is_not_recursive() {
    let validator = test_validator();
    let schema = obj(vec![(
        "properties",
        obj(vec![("user", obj(vec![("type", text("object"))]))]),
    )]);
    let data = obj(vec![(
        "user",
        obj(vec![("badly_shaped", JsonValue::Array(vec![JsonValue::Null]))]),
    )]);

    let result = validator.validate_data(&data, &schema);

    assert!(result.is_valid());
    assert!(result.errors().is_empty());
}
