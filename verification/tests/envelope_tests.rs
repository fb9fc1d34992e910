use pacts::{Envelope, Header, JsonValue};

fn text(s: &str) -> JsonValue {
    JsonValue::Text(s.to_string())
}

fn obj(pairs: Vec<(&str, JsonValue)>) -> JsonValue {
    JsonValue::Object(pairs.into_iter().map(|(k, v)| (k.to_string(), v)).collect())
}

fn test_header() -> Header {
    Header::new(
        "1.0".to_string(),
        "test".to_string(),
        "test-schema".to_string(),
    )
}

#[test]
fn test_new_envelope() {
    let header = test_header();
    let data = obj(vec![("id", text("123")), ("name", text("Test Item"))]);

    let envelope = Envelope::new(header.clone(), data.clone());

    assert_eq!(envelope.header(), &header);
    assert_eq!(envelope.data(), &data);
    assert!(envelope.metadata().is_none());
}

#[test]
fn test_with_metadata() {
    let header = test_header();
    let data = obj(vec![("id", text("123"))]);
    let metadata = vec![
        ("source".to_string(), text("test")),
        ("priority".to_string(), text("high")),
    ];

    let envelope = Envelope::with_metadata(header.clone(), data.clone(), metadata.clone());

    assert_eq!(envelope.header(), &header);
    assert_eq!(envelope.data(), &data);
    assert_eq!(envelope.metadata(), Some(&metadata));
}

#[test]
fn test_with_primitive_data() {
    let header = test_header();
    let data = text("simple string data");

    let envelope = Envelope::new(header.clone(), data.clone());

    assert_eq!(envelope.header(), &header);
    assert_eq!(envelope.data(), &data);
}

#[test]
fn test_with_null_data() {
    let header = test_header();
    let data = JsonValue::Null;

    let envelope = Envelope::new(header.clone(), data.clone());

    assert_eq!(envelope.header(), &header);
    assert_eq!(envelope.data(), &data);
}

#[test]
fn test_with_empty_metadata() {
    let header = test_header();
    let data = obj(vec![("id", text("123"))]);
    let empty_metadata: Vec<(String, JsonValue)> = Vec::new();

    let envelope = Envelope::with_metadata(header.clone(), data.clone(), empty_metadata.clone());

    assert_eq!(envelope.header(), &header);
    assert_eq!(envelope.data(), &data);
    assert_eq!(envelope.metadata(), Some(&empty_metadata));
}

#[test]
fn test_with_complex_data() {
    let header = test_header();
    let data = obj(vec![
        (
            "user",
            obj(vec![
                ("id", text("123")),
                (
                    "profile",
                    obj(vec![
                        ("name", text("John Doe")),
                        ("age", JsonValue::Number(30)),
                        ("active", JsonValue::Boolean(true)),
                    ]),
                ),
            ]),
        ),
        (
            "items",
            JsonValue::Array(vec![text("item1"), text("item2"), text("item3")]),
        ),
    ]);

    let envelope = Envelope::new(header.clone(), data.clone());

    assert_eq!(envelope.header(), &header);
    assert_eq!(envelope.data(), &data);
}

#[test]
fn envelope_test_clone() {
    let header = test_header();
    let data = obj(vec![("id", text("123"))]);
    let metadata = vec![("source".to_string(), text("test"))];

    let envelope = Envelope::with_metadata(header, data, metadata);
    let cloned = envelope.clone();

    assert_eq!(envelope.header.schema_version, cloned.header.schema_version);
    assert_eq!(envelope.header.schema_category, cloned.header.schema_category);
    assert_eq!(envelope.header.schema_name, cloned.header.schema_name);
    assert_eq!(envelope.data, cloned.data);
    assert_eq!(envelope.metadata, cloned.metadata);
}

#[test]
fn envelope_test_debug_format() {
    let header = test_header();
    let data = obj(vec![("id", text("123"))]);

    let envelope = Envelope::new(header, data);
    let debug_str = format!("{:?}", envelope);

    assert!(debug_str.contains("Envelope"));
    assert!(debug_str.contains("test-schema"));
}

#[test]
fn test_envelope_with_different_data_types() {
    let header = test_header();

    let _envelope1 = Envelope::new(header.clone(), text("string data"));
    let _envelope2 = Envelope::new(header.clone(), JsonValue::Number(42));
    let _envelope3 = Envelope::new(header.clone(), JsonValue::Boolean(true));
    let _envelope4 = Envelope::new(header.clone(), JsonValue::Null);
    let _envelope5 = Envelope::new(
        header.clone(),
        JsonValue::Array(vec![
            JsonValue::Number(1),
            JsonValue::Number(2),
            JsonValue::Number(3),
        ]),
    );
    let _envelope6 = Envelope::new(header, obj(vec![("key", text("value"))]));

    assert!(true);
}

#[test]
fn test_clone_operations() {
    let header = test_header();
    let data = obj(vec![("id", text("123"))]);
    let envelope = Envelope::new(header, data);

    let cloned_envelope = envelope.clone();
    assert_eq!(envelope.header.schema_version, cloned_envelope.header.schema_version);
    assert_eq!(envelope.header.schema_category, cloned_envelope.header.schema_category);
    assert_eq!(envelope.header.schema_name, cloned_envelope.header.schema_name);
    assert_eq!(envelope.data, cloned_envelope.data);

    let validation_result = pacts::ValidationResult::success();
    let cloned_result = validation_result.clone();
    assert_eq!(validation_result.valid, cloned_result.valid);
    assert_eq!(validation_result.errors, cloned_result.errors);
}
