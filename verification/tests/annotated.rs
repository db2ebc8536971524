use pagoda_runtime::error::DynamoError;
use pagoda_runtime::protocols::annotated::{Annotated, AnnotationsProvider};
use pagoda_runtime::protocols::maybe_error::MaybeError;

struct TestAnnotationsProvider(Option<Vec<String>>);

impl AnnotationsProvider for TestAnnotationsProvider {
    fn annotations(&self) -> Option<Vec<String>> {
        self.0.clone()
    }
}

#[test]
fn test_maybe_error() {
    let annotated = Annotated::from_data("Test data".to_string());
    assert!(annotated.err().is_none());
    assert!(annotated.is_ok());

    let annotated = Annotated::<String>::from_error("Test error 2".to_string());
    assert!(annotated.err().is_some());
    assert!(annotated.is_err());

    let dynamo_err = DynamoError::msg("Test error 3".to_string());
    let annotated = Annotated::<String>::from_err(dynamo_err);
    assert!(annotated.is_err());
}

#[test]
fn test_from_err() {
    let err = DynamoError::msg("connection lost".to_string());
    let annotated = Annotated::<String>::from_err(err);

    assert!(annotated.is_err());
    let err = annotated.err().unwrap();
    assert!(err.to_string().contains("connection lost"));
}

#[test]
fn test_transfer_preserves_error() {
    let err = DynamoError::msg("request timed out".to_string());
    let annotated = Annotated::<String>::from_err(err);

    let transferred: Annotated<i32> = annotated.transfer(None);
    assert!(transferred.err().is_some());
}

#[test]
fn test_ok_method() {
    let err = DynamoError::msg("connection lost".to_string());
    let annotated = Annotated::<String>::from_err(err);

    let result = annotated.ok();
    assert!(result.is_err());
    assert!(result.unwrap_err().contains("connection lost"));
}

#[test]
fn test_annotations_provider_has_annotation() {
    let provider = TestAnnotationsProvider(Some(vec!["timing".to_string(), "trace".to_string()]));
    let empty_provider = TestAnnotationsProvider(None);

    assert!(provider.has_annotation("trace"));
    assert!(!provider.has_annotation("missing"));
    assert!(!empty_provider.has_annotation("trace"));
}

#[test]
fn test_from_annotation_populates_event_and_comment() {
    let mut value = serde_json::Map::new();
    value.insert("latency_ms".to_string(), serde_json::Value::from(12));
    let annotated =
        Annotated::<String>::from_annotation("metrics", serde_json::to_string(&value)).unwrap();

    assert!(annotated.data.is_none());
    assert_eq!(annotated.event.as_deref(), Some("metrics"));
    assert_eq!(
        annotated.comment,
        Some(vec![r#"{"latency_ms":12}"#.to_string()])
    );
    assert!(annotated.is_event());
    assert!(!annotated.is_error());
}

#[test]
fn test_ok_uses_comment_fallback_for_error_events() {
    let annotated = Annotated::<String> {
        data: None,
        id: Some("req-1".to_string()),
        event: Some("error".to_string()),
        comment: Some(vec!["first".to_string(), "second".to_string()]),
        error: None,
    };

    let result = annotated.ok();
    assert_eq!(result.unwrap_err(), "first, second");
}

#[test]
fn test_map_data_success_preserves_metadata() {
    let annotated = Annotated {
        data: Some(21_i32),
        id: Some("chunk-7".to_string()),
        event: Some("delta".to_string()),
        comment: Some(vec!["note".to_string()]),
        error: None,
    };

    let mapped = annotated.map_data(|value| Ok(value * 2));

    assert_eq!(mapped.data, Some(42));
    assert_eq!(mapped.id.as_deref(), Some("chunk-7"));
    assert_eq!(mapped.event.as_deref(), Some("delta"));
    assert_eq!(mapped.comment, Some(vec!["note".to_string()]));
}

#[test]
fn test_map_data_failure_returns_error_annotation() {
    let annotated = Annotated::from_data("bad payload".to_string());

    let mapped: Annotated<usize> = annotated.map_data(|_| Err("decode failed".to_string()));

    assert!(mapped.is_error());
    assert!(mapped.data.is_none());
    assert_eq!(mapped.event.as_deref(), Some("error"));
    assert!(mapped.err().unwrap().to_string().contains("decode failed"));
}

#[test]
fn test_into_result_handles_data_comment_errors_and_empty_events() {
    let with_data = Annotated::from_data(7_u32);
    assert_eq!(with_data.into_result().unwrap(), Some(7));

    let empty_event = Annotated::<u32> {
        data: None,
        id: None,
        event: Some("progress".to_string()),
        comment: Some(vec!["halfway".to_string()]),
        error: None,
    };
    assert_eq!(empty_event.into_result().unwrap(), None);

    let comment_error = Annotated::<u32> {
        data: None,
        id: None,
        event: Some("error".to_string()),
        comment: Some(vec!["transient failure".to_string()]),
        error: None,
    };
    assert!(comment_error
        .into_result()
        .unwrap_err()
        .to_string()
        .contains("transient failure"));
}

#[test]
fn test_err_falls_back_to_comment_and_unknown_error() {
    let comment_error = Annotated::<String> {
        data: None,
        id: None,
        event: Some("error".to_string()),
        comment: Some(vec!["bad gateway".to_string(), "retry later".to_string()]),
        error: None,
    };
    let unknown_error = Annotated::<String> {
        data: None,
        id: None,
        event: Some("error".to_string()),
        comment: Some(vec![]),
        error: None,
    };

    assert_eq!(
        comment_error.err().unwrap().to_string(),
        "Unknown: bad gateway; retry later"
    );
    assert_eq!(
        unknown_error.err().unwrap().to_string(),
        "Unknown: unknown error"
    );
}

#[test]
fn test_into_result() {
    let err = DynamoError::msg("connection lost".to_string());
    let annotated = Annotated::<String>::from_err(err);

    let result = annotated.into_result();
    assert!(result.is_err());
    assert!(result.unwrap_err().to_string().contains("connection lost"));
}

#[test]
fn map_data_without_data_keeps_everything_else() {
    let annotated = Annotated::<u8> {
        data: None,
        id: Some("i".to_string()),
        event: Some("error".to_string()),
        comment: None,
        error: Some(DynamoError::msg("e".to_string())),
    };
    let mapped: Annotated<u16> = annotated.map_data(|_| Err("never".to_string()));
    assert_eq!(mapped.id.as_deref(), Some("i"));
    assert_eq!(mapped.err().unwrap().message(), "e");
}

#[test]
fn data_wins_over_an_error_event() {
    let annotated = Annotated {
        data: Some(1u8),
        id: None,
        event: Some("error".to_string()),
        comment: None,
        error: None,
    };
    assert!(annotated.is_error());
    assert_eq!(annotated.into_result().unwrap(), Some(1));
}

#[test]
fn a_failed_serialisation_is_the_outcome() {
    let outcome = Annotated::<u8>::from_annotation("n", Err::<String, u32>(9));
    assert_eq!(outcome.unwrap_err(), 9);
}
