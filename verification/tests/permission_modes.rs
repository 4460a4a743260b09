use agent_control::json::Json;
use agent_control::permission::{finish_set_permission_mode, PermissionMode};
use agent_control::errors::{ClaudeError, RoutedSendFailure};
use agent_control::protocol::{RouteAction, SendEvent};
use agent_control::query::{settle, QueryFull};

const REFUSAL: &str = "unknown variant `notARealMode`";

fn value(text: &str) -> serde_json::Value {
    serde_json::from_str(text).unwrap()
}

fn json(text: &str) -> Json {
    Json::from_value(value(text))
}

/// Asks for the mode and answers with the fields beside the identifier.
fn set_mode(mode: PermissionMode, name: &str, fields: &str) -> Result<PermissionMode, ClaudeError> {
    let mut query = QueryFull::new();
    query.start();
    let outgoing = query.set_permission_mode(mode).unwrap();
    let written = value(&outgoing.text);
    assert_eq!(written["request"]["subtype"], "set_permission_mode");
    assert_eq!(written["request"]["mode"], name);

    let mut inner = value(fields);
    let members = inner.as_object_mut().unwrap();
    members.insert("subtype".to_string(), value(r#""set_permission_mode""#));
    members.insert("request_id".to_string(), written["request_id"].clone());
    let message = Json::object()
        .with("type", Json::text("control_response"))
        .with("response", Json::from_value(inner));
    match query.route_message(message) {
        RouteAction::Deliver { response, .. } => {
            finish_set_permission_mode(settle(SendEvent::Answered(response)), REFUSAL)
        }
        other => panic!("expected Deliver, got {:?}", other),
    }
}

#[test]
fn test_set_permission_mode_success_returns_confirmed_mode() {
    let result = set_mode(
        PermissionMode::BypassPermissions,
        "bypassPermissions",
        r#"{"response": {"mode": "bypassPermissions"}}"#,
    );
    assert_eq!(result.unwrap(), PermissionMode::BypassPermissions);
}

#[test]
fn test_set_permission_mode_error_response_returns_error() {
    let result = set_mode(
        PermissionMode::BypassPermissions,
        "bypassPermissions",
        r#"{"error": "Cannot set permission mode to bypassPermissions because the session was not launched with --dangerously-skip-permissions"}"#,
    );
    let err = result.unwrap_err();
    assert!(err.message().contains("dangerously-skip-permissions"));
}

#[test]
fn test_set_permission_mode_missing_response_mode_returns_error() {
    let result = set_mode(PermissionMode::Default, "default", r#"{"response": {}}"#);
    let err = result.unwrap_err();
    assert!(err.message().contains("missing response.mode"));
}

#[test]
fn test_set_permission_mode_invalid_mode_value_returns_error() {
    let result =
        set_mode(PermissionMode::Default, "default", r#"{"response": {"mode": "notARealMode"}}"#);
    let err = result.unwrap_err();
    assert!(err.message().contains("invalid mode"));
    assert_eq!(
        err.message(),
        "set_permission_mode response contained invalid mode: unknown variant `notARealMode`"
    );
}

#[test]
fn every_mode_is_read_back_from_its_name() {
    let modes = [
        (PermissionMode::Default, "default"),
        (PermissionMode::AcceptEdits, "acceptEdits"),
        (PermissionMode::Plan, "plan"),
        (PermissionMode::BypassPermissions, "bypassPermissions"),
    ];
    for (mode, name) in modes {
        assert_eq!(mode.as_str(), name);
        assert_eq!(PermissionMode::from_name(name), Some(mode));
        assert_eq!(PermissionMode::from_json(&Json::text(name)), Some(mode));
        let fields = format!(r#"{{"response": {{"mode": "{name}"}}}}"#);
        assert_eq!(set_mode(mode, name, &fields).unwrap(), mode);
    }
}

#[test]
fn a_mode_may_be_spelled_as_a_lone_null_member() {
    assert_eq!(
        PermissionMode::from_json(&json(r#"{"plan": null}"#)),
        Some(PermissionMode::Plan)
    );
    assert_eq!(PermissionMode::from_json(&json(r#"{"plan": 1}"#)), None);
    assert_eq!(PermissionMode::from_json(&json(r#"{"plan": null, "default": null}"#)), None);
    assert_eq!(PermissionMode::from_json(&json("{}")), None);
    assert_eq!(PermissionMode::from_json(&json("4")), None);
    assert_eq!(PermissionMode::from_json(&json(r#""Plan""#)), None);
}

#[test]
fn a_failed_mode_change_reports_the_failure() {
    let closed = finish_set_permission_mode(Err(RoutedSendFailure::NoAcknowledgement), REFUSAL);
    assert_eq!(closed.unwrap_err().message(), "Control request response channel closed");
    let failure = RoutedSendFailure::Write(ClaudeError::Transport("gone".to_string()));
    match finish_set_permission_mode(Err(failure), REFUSAL) {
        Err(ClaudeError::Transport(text)) => assert_eq!(text, "gone"),
        other => panic!("expected Transport, got {:?}", other),
    }
}

#[test]
fn a_named_mode_counts_whatever_else_the_reply_says() {
    let fields = r#"{"note": [1], "error": null, "response": {"mode": "plan", "was": "default"}}"#;
    assert_eq!(set_mode(PermissionMode::Default, "default", fields).unwrap(), PermissionMode::Plan);
    let refused = r#"{"error": "no", "response": {"mode": "plan"}}"#;
    let result = set_mode(PermissionMode::Plan, "plan", refused);
    assert_eq!(result.unwrap_err().message(), "no");
}
