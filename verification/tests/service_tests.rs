use pacts::{
    Envelope, Header, JsonValue, LoaderStatus, PactsService, SchemaLoader, SourceOutcome,
    ValidationResult, Validator,
};

fn text(s: &str) -> JsonValue {
    JsonValue::Text(s.to_string())
}

fn obj(pairs: Vec<(&str, JsonValue)>) -> JsonValue {
    JsonValue::Object(pairs.into_iter().map(|(k, v)| (k.to_string(), v)).collect())
}

fn test_service() -> PactsService {
    PactsService::new(
        "schemas".to_string(),
        "bees".to_string(),
        "1.0".to_string(),
    )
}

#[test]
fn test_default_service_coordinates() {
    let service = PactsService::default();
    assert_eq!(service.schema_loader().get_schema_root(), "schemas");
    assert_eq!(service.schema_loader().get_domain(), "bees");
    assert_eq!(service.schema_loader().get_version(), "v1");
    assert_eq!(service.schema_loader().status, LoaderStatus::Uninitialized);
}

#[test]
fn test_library_exports() {
    let _envelope: Envelope = Envelope::new(
        Header::new("1.0".to_string(), "test".to_string(), "test".to_string()),
        obj(vec![]),
    );

    let _header: Header =
        Header::new("1.0".to_string(), "test".to_string(), "test".to_string());
    let _schema_loader: SchemaLoader =
        SchemaLoader::new("schemas".to_string(), "bees".to_string(), "v1".to_string());
    let _validator: Validator = Validator::new(_schema_loader);
    let _validation_result: ValidationResult = ValidationResult::success();

    assert!(true);
}

#[test]
fn test_basic_workflow() {
    let header = Header::new(
        "1.0".to_string(),
        "test".to_string(),
        "test-schema".to_string(),
    );
    let data = obj(vec![("id", text("123")), ("name", text("Test Item"))]);

    let envelope = Envelope::new(header, data);
    let schema_loader =
        SchemaLoader::new("schemas".to_string(), "bees".to_string(), "v1".to_string());
    let validator = Validator::new(schema_loader);

    let result = validator.validate(&envelope);

    assert!(!result.is_valid());
    assert!(result.has_errors());
    assert!(result.error_message().contains("Schema not found"));
}

#[test]
fn test_create_envelope_with_auth() {
    let service = test_service();
    let data = obj(vec![("test", text("data"))]);

    let envelope = service.create_envelope_with_auth(
        "player".to_string(),
        "test-schema".to_string(),
        data.clone(),
        "test-token".to_string(),
    );

    assert_eq!(envelope.header.schema_version, "1.0");
    assert_eq!(envelope.header.schema_category, "player");
    assert_eq!(envelope.header.schema_name, "test-schema");
    assert_eq!(envelope.header.auth_token, Some("test-token".to_string()));
    assert_eq!(envelope.data, data);
}

#[test]
fn test_create_envelope_without_auth() {
    let service = test_service();
    let data = obj(vec![("test", text("data"))]);

    let envelope = service.create_envelope(
        "player".to_string(),
        "test-schema".to_string(),
        data.clone(),
    );

    assert_eq!(envelope.header.schema_version, "1.0");
    assert_eq!(envelope.header.schema_category, "player");
    assert_eq!(envelope.header.schema_name, "test-schema");
    assert_eq!(envelope.header.auth_token, None);
    assert_eq!(envelope.header.content_type, Some("application/json".to_string()));
    assert_eq!(envelope.data, data);
}

#[test]
fn test_send_validated_data_success() {
    let service = test_service();
    let data = obj(vec![("test", text("data"))]);

    let result = service.send_validated_data(
        "player".to_string(),
        "test-schema".to_string(),
        data,
        |envelope: &Envelope| {
            Ok(format!(
                "Sent envelope with schema {}",
                envelope.header.schema_name
            ))
        },
    );

    // Fails validation because no schema is cached, but the mechanism works.
    assert!(result.is_err());
    assert!(result.unwrap_err().contains("Schema not found"));
}

#[test]
fn test_send_validated_data_delivers_valid_envelope() {
    let mut service = test_service();
    service.validator.schema_loader.resolve_chain(vec![SourceOutcome::Batch(vec![(
        "bees/1.0/player/player_request".to_string(),
        obj(vec![
            ("type", text("object")),
            ("required", JsonValue::Array(vec![text("id")])),
        ]),
    )])]);

    let data = obj(vec![("id", text("123"))]);
    let result = service.send_validated_data(
        "player".to_string(),
        "player_request".to_string(),
        data,
        |envelope: &Envelope| {
            Ok(format!(
                "Sent envelope with schema {}",
                envelope.header.schema_name
            ))
        },
    );

    assert_eq!(result, Ok("Sent envelope with schema player_request".to_string()));
}

#[test]
fn test_send_validated_data_reports_validation_failure() {
    let mut service = test_service();
    service.validator.schema_loader.resolve_chain(vec![SourceOutcome::Batch(vec![(
        "bees/1.0/player/player_request".to_string(),
        obj(vec![
            ("type", text("object")),
            ("required", JsonValue::Array(vec![text("id")])),
        ]),
    )])]);

    let data = obj(vec![("name", text("no id here"))]);
    let result: Result<(), String> = service.send_validated_data(
        "player".to_string(),
        "player_request".to_string(),
        data,
        |_envelope: &Envelope| Ok(()),
    );

    assert_eq!(
        result,
        Err("Validation failed: Required field missing: id".to_string())
    );
}

#[test]
fn test_service_validate_data_hit() {
    let mut service = test_service();
    service.validator.schema_loader.resolve_chain(vec![SourceOutcome::Batch(vec![(
        "bees/1.0/player/player_request".to_string(),
        obj(vec![
            ("type", text("object")),
            ("required", JsonValue::Array(vec![text("id")])),
        ]),
    )])]);

    let good = obj(vec![("id", text("1"))]);
    let bad = obj(vec![("name", text("x"))]);

    assert!(service.validate_data(&good, "player", "player_request").is_valid());
    let failed = service.validate_data(&bad, "player", "player_request");
    assert!(!failed.is_valid());
    assert_eq!(
        failed.errors(),
        &vec!["Required field missing: id".to_string()]
    );
}

#[test]
fn test_service_validate_data_miss() {
    let service = test_service();
    let data = obj(vec![("id", text("1"))]);

    let result = service.validate_data(&data, "player", "nowhere");

    assert!(!result.is_valid());
    assert_eq!(
        result.errors(),
        &vec!["Schema not found: bees/player/nowhere".to_string()]
    );
}

#[test]
fn test_service_validate_envelope_end_to_end() {
    let mut service = test_service();
    service.validator.schema_loader.resolve_chain(vec![SourceOutcome::Batch(vec![(
        "bees/1.0/player/player_request".to_string(),
        obj(vec![
            ("type", text("object")),
            ("required", JsonValue::Array(vec![text("id")])),
        ]),
    )])]);
    assert_eq!(service.schema_loader().status, LoaderStatus::Ready);

    let envelope = service.create_envelope(
        "player".to_string(),
        "player_request".to_string(),
        obj(vec![("id", text("7"))]),
    );
    let result = service.validate(&envelope);

    assert!(result.is_valid());
    assert!(service.validator().validate(&envelope).is_valid());
}
