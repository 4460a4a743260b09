use agent_control::envelope::IncomingControlRequest;
use agent_control::errors::ClaudeError;
use agent_control::json::Json;
use agent_control::permission::{
    PermissionResult, PermissionResultAllow, PermissionResultDeny,
};
use agent_control::protocol::{ControlAction, PermissionCall};
use agent_control::query::QueryFull;

const CALLBACK: u64 = 7;

fn value(text: &str) -> serde_json::Value {
    serde_json::from_str(text).unwrap()
}

fn json(text: &str) -> Json {
    Json::from_value(value(text))
}

fn request(id: &str, text: &str) -> IncomingControlRequest {
    IncomingControlRequest { request_id: id.to_string(), request: json(text) }
}

/// Asks a started query with a permission callback what a request means.
fn permission_call(id: &str, text: &str) -> PermissionCall {
    let mut query = QueryFull::new();
    query.set_can_use_tool(Some(CALLBACK));
    query.start();
    match query.handle_control_request(request(id, text)).unwrap() {
        ControlAction::AskPermission(call) => call,
        other => panic!("expected AskPermission, got {:?}", other),
    }
}

#[test]
fn test_permission_callback_allow() {
    let call = permission_call(
        "test-1",
        r#"{"subtype": "can_use_tool", "tool_name": "TestTool",
            "input": {"param": "value"}, "permission_suggestions": []}"#,
    );
    assert_eq!(call.callback, CALLBACK, "Permission callback should have been invoked");
    assert_eq!(call.tool_name, "TestTool");
    assert_eq!(call.input.to_value()["param"], "value");
    assert_eq!(call.suggestions.as_ref().unwrap().to_value(), value("[]"));

    let written = call.finish(PermissionResult::Allow(PermissionResultAllow::default()));
    assert!(written.contains(r#""behavior":"allow""#));
    assert_eq!(
        value(&written),
        value(
            r#"{"type": "control_response", "response": {"subtype": "success",
                "request_id": "test-1",
                "response": {"behavior": "allow", "updatedInput": {"param": "value"}}}}"#
        )
    );
}

#[test]
fn test_permission_callback_deny() {
    let call = permission_call(
        "test-2",
        r#"{"subtype": "can_use_tool", "tool_name": "DangerousTool",
            "input": {"command": "rm -rf /"}, "permission_suggestions": ["deny"]}"#,
    );
    let written = call.finish(PermissionResult::Deny(PermissionResultDeny {
        message: "Security policy violation".to_string(),
        interrupt: false,
    }));
    assert!(written.contains(r#""behavior":"deny""#));
    assert!(written.contains("Security policy violation"));
    assert!(!written.contains("interrupt"));
}

#[test]
fn test_permission_callback_input_modification() {
    let call = permission_call(
        "test-3",
        r#"{"subtype": "can_use_tool", "tool_name": "WriteTool",
            "input": {"file_path": "/etc/passwd"}, "permission_suggestions": []}"#,
    );
    let modified = call.input.clone().with("safe_mode", Json::Bool(true));
    let written = call.finish(PermissionResult::Allow(PermissionResultAllow {
        updated_input: Some(modified),
        updated_permissions: None,
    }));
    assert!(written.contains(r#""behavior":"allow""#));
    assert!(written.contains(r#""safe_mode":true"#));
    assert_eq!(
        value(&written)["response"]["response"]["updatedInput"],
        value(r#"{"file_path": "/etc/passwd", "safe_mode": true}"#)
    );
}

#[test]
fn test_permission_callback_deny_with_interrupt() {
    let call = permission_call(
        "test-4",
        r#"{"subtype": "can_use_tool", "tool_name": "CriticalTool",
            "input": {}, "permission_suggestions": []}"#,
    );
    let written = call.finish(PermissionResult::Deny(PermissionResultDeny {
        message: "Critical security violation".to_string(),
        interrupt: true,
    }));
    assert!(written.contains(r#""behavior":"deny""#));
    assert!(written.contains(r#""interrupt":true"#));
}

#[test]
fn test_permission_callback_not_provided() {
    let mut query = QueryFull::new();
    query.start();
    let result = query.handle_control_request(request(
        "test-5",
        r#"{"subtype": "can_use_tool", "tool_name": "TestTool",
            "input": {}, "permission_suggestions": []}"#,
    ));
    assert!(result.is_err());
    let err = result.unwrap_err();
    assert!(err.message().contains("can_use_tool callback is not provided"));
}

#[test]
fn callback_set_after_start_is_not_asked() {
    let mut query = QueryFull::new();
    query.start();
    query.set_can_use_tool(Some(CALLBACK));
    let result = query.handle_control_request(request(
        "late",
        r#"{"subtype": "can_use_tool", "tool_name": "TestTool"}"#,
    ));
    assert_eq!(result.unwrap_err().message(), "can_use_tool callback is not provided");
}

#[test]
fn missing_tool_name_is_refused() {
    let mut query = QueryFull::new();
    query.set_can_use_tool(Some(CALLBACK));
    query.start();
    let result =
        query.handle_control_request(request("t", r#"{"subtype": "can_use_tool", "tool_name": 1}"#));
    assert_eq!(result.unwrap_err().message(), "Missing tool_name");
}

#[test]
fn absent_input_is_an_empty_object() {
    let call =
        permission_call("t", r#"{"subtype": "can_use_tool", "tool_name": "Read"}"#);
    assert_eq!(call.input.to_value(), value("{}"));
    assert!(call.suggestions.is_none());
}

#[test]
fn updated_permissions_are_reported() {
    let call = permission_call("t", r#"{"subtype": "can_use_tool", "tool_name": "Read"}"#);
    let with = call.finish(PermissionResult::Allow(PermissionResultAllow {
        updated_input: None,
        updated_permissions: Some(Some(json(r#"[{"type": "addRules"}]"#))),
    }));
    assert_eq!(
        value(&with)["response"]["response"]["updatedPermissions"],
        value(r#"[{"type": "addRules"}]"#)
    );
    let unwritable = call.finish(PermissionResult::Allow(PermissionResultAllow {
        updated_input: None,
        updated_permissions: Some(None),
    }));
    assert_eq!(value(&unwritable)["response"]["response"]["updatedPermissions"], value("[]"));
    let without = call.finish(PermissionResult::Allow(PermissionResultAllow::default()));
    assert!(value(&without)["response"]["response"].get("updatedPermissions").is_none());
}

#[test]
fn subtype_is_required_and_known() {
    let query = QueryFull::new();
    for text in ["{}", r#"{"subtype": 3}"#, "null", "[]"] {
        match query.handle_control_request(request("t", text)) {
            Err(ClaudeError::ControlProtocol(message)) => assert_eq!(message, "Missing subtype"),
            other => panic!("expected ControlProtocol, got {:?}", other),
        }
    }
    let unknown = query.handle_control_request(request("t", r#"{"subtype": "dance"}"#));
    assert_eq!(unknown.unwrap_err().message(), "Unsupported control request subtype: dance");
}
