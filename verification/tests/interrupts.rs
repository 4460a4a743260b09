use agent_control::errors::{ClaudeError, RoutedSendFailure};
use agent_control::interrupt::{
    finish_interrupt, parse_still_queued, InterruptError, InterruptRequestAccepted,
};
use agent_control::json::Json;
use agent_control::protocol::{RouteAction, SendEvent};
use agent_control::query::{settle, QueryFull};

fn value(text: &str) -> serde_json::Value {
    serde_json::from_str(text).unwrap()
}

fn json(text: &str) -> Json {
    Json::from_value(value(text))
}

/// The response message whose inner object holds the fields beside the identifier.
fn response_message(request_id: &str, envelope_fields: &str) -> Json {
    let mut inner = value(envelope_fields);
    inner
        .as_object_mut()
        .unwrap()
        .insert("request_id".to_string(), serde_json::Value::String(request_id.to_string()));
    Json::object()
        .with("type", Json::text("control_response"))
        .with("response", Json::from_value(inner))
}

/// Drives one interrupt against a peer that answers with the fields.
fn interrupt_against_envelope(
    envelope_fields: &str,
) -> Result<InterruptRequestAccepted, InterruptError> {
    let mut query = QueryFull::new();
    query.start();
    let outgoing = query.interrupt().unwrap();
    let written = value(&outgoing.text);
    assert_eq!(written["type"], "control_request");
    assert_eq!(written["request_id"], outgoing.request_id.as_str());
    assert_eq!(written["request"], value(r#"{"subtype": "interrupt"}"#));

    match query.route_message(response_message(&outgoing.request_id, envelope_fields)) {
        RouteAction::Deliver { waiter, response } => {
            assert_eq!(waiter, outgoing.waiter);
            finish_interrupt(settle(SendEvent::Answered(response)))
                .map_err(InterruptError::from_query)
        }
        other => panic!("expected Deliver, got {:?}", other),
    }
}

#[test]
fn test_interrupt_success_with_receipt_preserves_still_queued() {
    let result = interrupt_against_envelope(
        r#"{"subtype": "success", "response": {"still_queued": ["uuid-a", "uuid-b"]}}"#,
    );
    assert_eq!(
        result.unwrap(),
        InterruptRequestAccepted {
            still_queued: Some(vec!["uuid-a".to_string(), "uuid-b".to_string()]),
        }
    );
}

#[test]
fn test_interrupt_success_with_empty_receipt_is_some_empty() {
    let result =
        interrupt_against_envelope(r#"{"subtype": "success", "response": {"still_queued": []}}"#);
    assert_eq!(result.unwrap(), InterruptRequestAccepted { still_queued: Some(vec![]) });
}

#[test]
fn test_interrupt_success_without_payload_is_accepted() {
    let result = interrupt_against_envelope(r#"{"subtype": "success"}"#);
    assert_eq!(result.unwrap(), InterruptRequestAccepted { still_queued: None });
}

#[test]
fn test_interrupt_success_with_null_payload_is_accepted() {
    let result = interrupt_against_envelope(r#"{"subtype": "success", "response": null}"#);
    assert_eq!(result.unwrap(), InterruptRequestAccepted { still_queued: None });
}

#[test]
fn test_interrupt_success_with_unknown_payload_fields_is_accepted() {
    let result =
        interrupt_against_envelope(r#"{"subtype": "success", "response": {"some_future_field": 7}}"#);
    assert_eq!(result.unwrap(), InterruptRequestAccepted { still_queued: None });
}

#[test]
fn test_interrupt_mixed_receipt_array_yields_no_receipt() {
    let result = interrupt_against_envelope(
        r#"{"subtype": "success", "response": {"still_queued": ["uuid-a", 7, "uuid-b"]}}"#,
    );
    assert_eq!(
        result.unwrap(),
        InterruptRequestAccepted { still_queued: None },
        "a mixed array must yield no receipt, never a filtered partial one"
    );
}

#[test]
fn test_interrupt_receipt_that_is_not_an_array_yields_no_receipt() {
    let result = interrupt_against_envelope(
        r#"{"subtype": "success", "response": {"still_queued": "uuid-a"}}"#,
    );
    assert_eq!(result.unwrap(), InterruptRequestAccepted { still_queued: None });
}

#[test]
fn test_interrupt_error_envelope_reports_the_error_response() {
    let result =
        interrupt_against_envelope(r#"{"subtype": "error", "error": "interrupt rejected"}"#);
    match result.unwrap_err() {
        InterruptError::ErrorResponse { message } => assert_eq!(message, "interrupt rejected"),
        other => panic!("expected ErrorResponse, got {other:?}"),
    }
}

#[test]
fn test_interrupt_error_envelope_without_message_is_unusable() {
    let result = interrupt_against_envelope(r#"{"subtype": "error"}"#);
    match result.unwrap_err() {
        InterruptError::UnexpectedResponse { subtype } => assert_eq!(subtype, "error"),
        other => panic!("expected UnexpectedResponse, got {other:?}"),
    }
}

#[test]
fn test_interrupt_error_envelope_with_non_string_message_is_unusable() {
    let result = interrupt_against_envelope(r#"{"subtype": "error", "error": {"code": 7}}"#);
    match result.unwrap_err() {
        InterruptError::UnexpectedResponse { subtype } => assert_eq!(subtype, "error"),
        other => panic!("expected UnexpectedResponse, got {other:?}"),
    }
}

#[test]
fn test_interrupt_unknown_subtype_is_unusable() {
    let result = interrupt_against_envelope(
        r#"{"subtype": "set_permission_mode", "response": {"mode": "default"}}"#,
    );
    match result.unwrap_err() {
        InterruptError::UnexpectedResponse { subtype } => {
            assert_eq!(subtype, "set_permission_mode")
        }
        other => panic!("expected UnexpectedResponse, got {other:?}"),
    }
}

#[test]
fn test_interrupt_reader_exit_releases_a_waiting_request() {
    let mut query = QueryFull::new();
    query.start();
    let outgoing = query.interrupt().unwrap();
    query.reader_exit(None);

    // The release sweep took the entry: a late answer finds nobody.
    let late = query.route_message(response_message(
        &outgoing.request_id,
        r#"{"subtype": "success"}"#,
    ));
    assert!(matches!(late, RouteAction::Ignore));

    let result =
        finish_interrupt(settle(SendEvent::Released)).map_err(InterruptError::from_query);
    match result.unwrap_err() {
        InterruptError::AcknowledgementUnavailable => {}
        other => panic!("expected AcknowledgementUnavailable, got {other:?}"),
    }
}

#[test]
fn test_interrupt_registered_after_reader_exit_reports_no_acknowledgement() {
    let mut query = QueryFull::new();
    query.start();
    query.interrupt().unwrap();
    query.reader_exit(None);
    let first =
        finish_interrupt(settle(SendEvent::Released)).map_err(InterruptError::from_query);
    match first.unwrap_err() {
        InterruptError::AcknowledgementUnavailable => {}
        other => panic!(
            "expected the first interrupt to report AcknowledgementUnavailable, got {other:?}"
        ),
    }

    // No text comes back, so the post-exit registration withdraws before writing.
    let failure = query.interrupt().unwrap_err();
    let result = finish_interrupt(Err(failure)).map_err(InterruptError::from_query);
    match result.unwrap_err() {
        InterruptError::AcknowledgementUnavailable => {}
        other => panic!("expected AcknowledgementUnavailable, got {other:?}"),
    }
}

#[test]
fn test_interrupt_write_failure_reports_send_failed() {
    let mut query = QueryFull::new();
    query.start();
    query.interrupt().unwrap();
    let failed = SendEvent::WriteFailed(ClaudeError::Transport("stdin is unavailable".to_string()));
    let result = finish_interrupt(settle(failed)).map_err(InterruptError::from_query);
    match result.unwrap_err() {
        InterruptError::SendFailed { source } => {
            assert!(matches!(source, ClaudeError::Transport(_)));
            assert_eq!(source.message(), "stdin is unavailable");
        }
        other => panic!("expected SendFailed, got {other:?}"),
    }
}

#[test]
fn receipts_are_read_under_the_nested_response() {
    assert_eq!(
        parse_still_queued(&json(r#"{"response": {"still_queued": ["a"]}}"#)),
        Some(vec!["a".to_string()])
    );
    assert_eq!(parse_still_queued(&json(r#"{"still_queued": ["a"]}"#)), None);
    assert_eq!(parse_still_queued(&json(r#"{"response": {"still_queued": null}}"#)), None);
    assert_eq!(parse_still_queued(&json(r#"{"response": ["still_queued"]}"#)), None);
    assert_eq!(parse_still_queued(&json("3")), None);
}

#[test]
fn interrupt_errors_have_their_words() {
    let source = ClaudeError::Transport("pipe closed".to_string());
    assert_eq!(InterruptError::NotConnected.message(), "client is not connected");
    assert_eq!(
        InterruptError::SendFailed { source }.message(),
        "interrupt send failed: pipe closed"
    );
    assert_eq!(
        InterruptError::ErrorResponse { message: "no".to_string() }.message(),
        "interrupt returned an error response: no"
    );
    assert_eq!(
        InterruptError::AcknowledgementUnavailable.message(),
        "no acknowledgement was obtained for the interrupt"
    );
    assert_eq!(
        InterruptError::UnexpectedResponse { subtype: "odd".to_string() }.message(),
        "interrupt received an unusable response with subtype odd"
    );
}

#[test]
fn write_failure_is_not_a_missing_acknowledgement() {
    let failed = settle(SendEvent::WriteFailed(ClaudeError::ControlProtocol("x".to_string())));
    assert!(matches!(failed, Err(RoutedSendFailure::Write(ClaudeError::ControlProtocol(_)))));
    assert!(matches!(settle(SendEvent::Released), Err(RoutedSendFailure::NoAcknowledgement)));
}
