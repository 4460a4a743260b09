use agent_control::envelope::{
    control_request, success_response, ControlResponse, IncomingControlRequest,
};
use agent_control::errors::{ClaudeError, RoutedSendFailure};
use agent_control::hooks::HookMatcher;
use agent_control::ident::{decimal_text, hook_id_text, request_id_text};
use agent_control::json::Json;
use agent_control::protocol::{ControlAction, HookOutcome, RouteAction, SendEvent};
use agent_control::query::{finish_acknowledged, finish_control_request, settle, QueryFull};

fn value(text: &str) -> serde_json::Value {
    serde_json::from_str(text).unwrap()
}

fn json(text: &str) -> Json {
    Json::from_value(value(text))
}

fn started() -> QueryFull {
    let mut query = QueryFull::new();
    assert!(!query.is_started());
    query.start();
    assert!(query.is_started());
    query
}

fn answer(request_id: &str) -> Json {
    json(&format!(
        r#"{{"type": "control_response",
            "response": {{"subtype": "success", "request_id": "{request_id}", "kept": 1}}}}"#
    ))
}

fn request(text: &str) -> IncomingControlRequest {
    IncomingControlRequest { request_id: "r".to_string(), request: json(text) }
}

#[test]
fn numbers_are_written_in_decimal() {
    assert_eq!(decimal_text(0), "0");
    assert_eq!(decimal_text(9), "9");
    assert_eq!(decimal_text(10), "10");
    assert_eq!(decimal_text(1203456789), "1203456789");
    assert_eq!(decimal_text(u64::MAX), u64::MAX.to_string());
    assert_eq!(hook_id_text(12), "hook_12");
    assert_eq!(request_id_text(3, "abc"), "req_3_abc");
}

#[test]
fn request_identifiers_are_numbered_and_carry_a_uuid() {
    let mut query = started();
    for n in 0..3u64 {
        let outgoing = query.interrupt().unwrap();
        assert_eq!(outgoing.waiter, n);
        let token = outgoing.request_id.strip_prefix(&format!("req_{n}_")).unwrap().to_string();
        assert_eq!(token.len(), 32);
        assert!(token.chars().all(|c| c.is_ascii_digit() || ('a'..='f').contains(&c)));
        assert_eq!(&token[12..13], "4");
        assert!("89ab".contains(&token[16..17]));
        let parsed = uuid::Uuid::parse_str(&token).unwrap();
        assert_eq!(parsed.get_version_num(), 4);
    }
    let one = query.interrupt().unwrap().request_id;
    let other = query.interrupt().unwrap().request_id;
    assert_ne!(one, other);
}

#[test]
fn a_response_reaches_its_own_waiter_once() {
    let mut query = started();
    let first = query.register_request(Json::object(), "t").unwrap();
    let second = query.register_request(Json::object(), "t").unwrap();
    assert_eq!(second.request_id, "req_1_t");
    match query.route_message(answer(&second.request_id)) {
        RouteAction::Deliver { waiter, response } => {
            assert_eq!(waiter, second.waiter);
            assert_eq!(response.subtype, "success");
            assert_eq!(response.data.to_value(), value(r#"{"kept": 1}"#));
        }
        other => panic!("expected Deliver, got {:?}", other),
    }
    assert!(matches!(query.route_message(answer(&second.request_id)), RouteAction::Ignore));
    match query.route_message(answer(&first.request_id)) {
        RouteAction::Deliver { waiter, .. } => assert_eq!(waiter, first.waiter),
        other => panic!("expected Deliver, got {:?}", other),
    }
    assert!(matches!(query.route_message(answer("req_9_t")), RouteAction::Ignore));
}

#[test]
fn registered_requests_are_framed() {
    let mut query = started();
    let outgoing = query.register_request(json(r#"{"subtype": "x"}"#), "t").unwrap();
    assert_eq!(
        outgoing.text,
        r#"{"request":{"subtype":"x"},"request_id":"req_0_t","type":"control_request"}"#
    );
}

#[test]
fn control_messages_out_of_form_are_dropped() {
    let mut query = started();
    query.register_request(Json::object(), "t").unwrap();
    for text in [
        r#"{"type": "control_response"}"#,
        r#"{"type": "control_response", "response": 4}"#,
        r#"{"type": "control_response", "response": {"request_id": "req_0_t"}}"#,
        r#"{"type": "control_response", "response": {"subtype": 1, "request_id": "req_0_t"}}"#,
        r#"{"type": "control_request"}"#,
        r#"{"type": "control_request", "request_id": 1, "request": {}}"#,
        r#"{"type": "control_request", "request_id": "a"}"#,
    ] {
        assert!(matches!(query.route_message(json(text)), RouteAction::Ignore));
    }
    assert!(matches!(query.route_message(answer("req_0_t")), RouteAction::Deliver { .. }));
}

#[test]
fn incoming_requests_are_handed_on() {
    let mut query = started();
    let message = json(r#"{"type": "control_request", "request_id": "a", "request": null}"#);
    match query.route_message(message) {
        RouteAction::Handle(request) => {
            assert_eq!(request.request_id, "a");
            assert_eq!(request.request.to_value(), value("null"));
        }
        other => panic!("expected Handle, got {:?}", other),
    }
}

#[test]
fn regular_messages_are_forwarded_unchanged() {
    let mut query = started();
    for text in [
        r#"{"type": "assistant", "message": {"content": [1, 2.5, -3, "x", true, null]}}"#,
        r#"{"type": 7}"#,
        "[]",
        r#""control_request""#,
        "{}",
    ] {
        match query.route_message(json(text)) {
            RouteAction::Forward(message) => assert_eq!(message.to_value(), value(text)),
            other => panic!("expected Forward, got {:?}", other),
        }
    }
}

#[test]
fn the_stream_ends_with_its_sentinels() {
    let mut query = started();
    let clean: Vec<serde_json::Value> =
        query.reader_exit(None).iter().map(|m| m.to_value()).collect();
    assert_eq!(clean, vec![value(r#"{"type": "end"}"#)]);
    let failed: Vec<serde_json::Value> =
        started().reader_exit(Some("broken".to_string())).iter().map(|m| m.to_value()).collect();
    assert_eq!(
        failed,
        vec![value(r#"{"type": "error", "error": "broken"}"#), value(r#"{"type": "end"}"#)]
    );
}

#[test]
fn after_the_reader_exit_nothing_is_registered() {
    let mut query = started();
    query.reader_exit(None);
    let refused = query.register_request(Json::object(), "t");
    assert!(matches!(refused, Err(RoutedSendFailure::NoAcknowledgement)));
    assert!(matches!(query.route_message(answer("req_0_t")), RouteAction::Ignore));
    assert!(matches!(query.set_model(None), Err(RoutedSendFailure::NoAcknowledgement)));
    assert!(matches!(query.rewind_files("u"), Err(RoutedSendFailure::NoAcknowledgement)));
}

#[test]
fn model_and_rewind_requests() {
    let mut query = started();
    let named = value(&query.set_model(Some("m1")).unwrap().text);
    assert_eq!(named["request"], value(r#"{"subtype": "set_model", "model": "m1"}"#));
    let unnamed = value(&query.set_model(None).unwrap().text);
    assert_eq!(unnamed["request"], value(r#"{"subtype": "set_model", "model": null}"#));
    let rewind = value(&query.rewind_files("uuid-1").unwrap().text);
    assert_eq!(
        rewind["request"],
        value(r#"{"subtype": "rewind_files", "user_message_id": "uuid-1"}"#)
    );
}

#[test]
fn generic_requests_return_the_data_whatever_the_subtype() {
    let message = json(
        r#"{"type": "control_response",
            "response": {"subtype": "error", "request_id": "a", "error": "no", "more": [1]}}"#,
    );
    let response = ControlResponse::from_json(&message).unwrap();
    assert_eq!(response.request_id, "a");
    let outcome = settle(SendEvent::Answered(response.response));
    assert_eq!(
        finish_control_request(outcome).unwrap().to_value(),
        value(r#"{"error": "no", "more": [1]}"#)
    );
    let response = ControlResponse::from_json(&message).unwrap();
    assert!(finish_acknowledged(settle(SendEvent::Answered(response.response))).is_ok());
    let released = finish_control_request(settle(SendEvent::Released));
    assert_eq!(released.unwrap_err().message(), "Control request response channel closed");
    let failed = SendEvent::WriteFailed(ClaudeError::Transport("gone".to_string()));
    assert_eq!(finish_acknowledged(settle(failed)).unwrap_err().message(), "gone");
}

#[test]
fn hooks_are_announced_and_found() {
    let mut query = started();
    let events = vec![
        (
            "PreToolUse".to_string(),
            vec![
                HookMatcher {
                    matcher: Some("Bash".to_string()),
                    hooks: vec![10, 11],
                    timeout: Some(json("1.5")),
                },
                HookMatcher { matcher: None, hooks: vec![12], timeout: None },
            ],
        ),
        ("Stop".to_string(), vec![HookMatcher { matcher: None, hooks: vec![13], timeout: None }]),
    ];
    let outgoing = query.initialize(events).unwrap();
    assert_eq!(
        value(&outgoing.text)["request"],
        value(
            r#"{"subtype": "initialize", "hooks": {
                "PreToolUse": [
                    {"matcher": "Bash", "hookCallbackIds": ["hook_0", "hook_1"], "timeout": 1.5},
                    {"matcher": null, "hookCallbackIds": ["hook_2"]}],
                "Stop": [{"matcher": null, "hookCallbackIds": ["hook_3"]}]}}"#
        )
    );
    for n in 0..4u64 {
        let text = format!(
            r#"{{"subtype": "hook_callback", "callback_id": "hook_{n}", "input": {{"n": {n}}},
                "tool_use_id": "tool-{n}"}}"#
        );
        match query.handle_control_request(request(&text)).unwrap() {
            ControlAction::RunHook(call) => {
                assert_eq!(call.request_id, "r");
                assert_eq!(call.callback, 10 + n);
                assert_eq!(call.input.to_value()["n"], n);
                assert_eq!(call.tool_use_id, Some(format!("tool-{n}")));
            }
            other => panic!("expected RunHook, got {:?}", other),
        }
    }
    // Later callbacks count on and leave the earlier ones alone.
    let more =
        vec![("Stop".to_string(), vec![HookMatcher { matcher: None, hooks: vec![99], timeout: None }])];
    let outgoing = query.initialize(more).unwrap();
    assert_eq!(
        value(&outgoing.text)["request"]["hooks"]["Stop"][0]["hookCallbackIds"],
        value(r#"["hook_4"]"#)
    );
    match query
        .handle_control_request(request(r#"{"subtype": "hook_callback", "callback_id": "hook_0"}"#))
        .unwrap()
    {
        ControlAction::RunHook(call) => assert_eq!(call.callback, 10),
        other => panic!("expected RunHook, got {:?}", other),
    }
}

#[test]
fn no_hooks_are_announced_as_null() {
    let outgoing = started().initialize(vec![]).unwrap();
    assert_eq!(
        value(&outgoing.text)["request"],
        value(r#"{"subtype": "initialize", "hooks": null}"#)
    );
}

#[test]
fn unknown_hooks_are_refused() {
    let query = started();
    let missing = query.handle_control_request(request(r#"{"subtype": "hook_callback"}"#));
    assert_eq!(missing.unwrap_err().message(), "Missing callback_id");
    let unknown = query
        .handle_control_request(request(r#"{"subtype": "hook_callback", "callback_id": "hook_0"}"#));
    assert_eq!(unknown.unwrap_err().message(), "Hook callback not found: hook_0");
}

#[test]
fn hook_outcomes_are_reported() {
    let mut query = started();
    let events =
        vec![("Stop".to_string(), vec![HookMatcher { matcher: None, hooks: vec![5], timeout: None }])];
    query.initialize(events).unwrap();
    let action = query
        .handle_control_request(request(r#"{"subtype": "hook_callback", "callback_id": "hook_0"}"#));
    let call = match action.unwrap() {
        ControlAction::RunHook(call) => call,
        other => panic!("expected RunHook, got {:?}", other),
    };
    assert_eq!(call.input.to_value(), value("{}"));
    assert_eq!(call.tool_use_id, None);
    let text = call.finish(HookOutcome::Returned(json(r#"{"continue": true}"#))).unwrap();
    assert_eq!(
        value(&text),
        value(
            r#"{"type": "control_response", "response": {"subtype": "success",
                "request_id": "r", "response": {"continue": true}}}"#
        )
    );
    let rejected = call.finish(HookOutcome::InputRejected("bad".to_string()));
    assert_eq!(rejected.unwrap_err().message(), "Failed to parse hook input: bad");
    let unwritable = call.finish(HookOutcome::OutputRejected("odd".to_string()));
    assert_eq!(unwritable.unwrap_err().message(), "Failed to serialize hook output: odd");
}

#[test]
fn tool_servers_are_replaced_and_found() {
    let mut query = started();
    query.set_sdk_mcp_servers(vec![("old".to_string(), 1)]);
    query.set_sdk_mcp_servers(vec![
        ("a".to_string(), 2),
        ("b".to_string(), 3),
        ("a".to_string(), 4),
    ]);
    let text = r#"{"subtype": "mcp_message", "server_name": "a", "message": {"id": 1}}"#;
    let call = match query.handle_control_request(request(text)).unwrap() {
        ControlAction::CallMcpServer(call) => call,
        other => panic!("expected CallMcpServer, got {:?}", other),
    };
    assert_eq!(call.server, 4);
    assert_eq!(call.message.to_value(), value(r#"{"id": 1}"#));
    let answer = call.finish(Ok(json(r#"{"ok": 1}"#))).unwrap();
    assert_eq!(
        value(&answer)["response"]["response"],
        value(r#"{"mcp_response": {"ok": 1}}"#)
    );
    let failed = call.finish(Err("down".to_string()));
    assert_eq!(failed.unwrap_err().message(), "MCP server error: down");

    let gone = r#"{"subtype": "mcp_message", "server_name": "old", "message": 0}"#;
    assert_eq!(
        query.handle_control_request(request(gone)).unwrap_err().message(),
        "SDK MCP server not found: old"
    );
    let nameless = r#"{"subtype": "mcp_message", "message": 0}"#;
    assert_eq!(
        query.handle_control_request(request(nameless)).unwrap_err().message(),
        "Missing server_name for mcp_message"
    );
    let empty = r#"{"subtype": "mcp_message", "server_name": "old"}"#;
    assert_eq!(
        query.handle_control_request(request(empty)).unwrap_err().message(),
        "Missing message for mcp_message"
    );
}

#[test]
fn the_first_initialization_result_stays() {
    let mut query = started();
    assert!(query.get_initialization_result().is_none());
    let failed = query.finish_initialize(settle(SendEvent::Released));
    assert_eq!(failed.unwrap_err().message(), "Control request response channel closed");
    assert!(query.get_initialization_result().is_none());
    for n in 0..2 {
        let data = format!(
            r#"{{"type": "control_response",
                "response": {{"subtype": "success", "request_id": "i", "n": {n}}}}}"#
        );
        let response = ControlResponse::from_json(&json(&data)).unwrap().response;
        let returned = query.finish_initialize(Ok(response)).unwrap();
        assert_eq!(returned.to_value()["n"], n);
        assert_eq!(query.get_initialization_result().unwrap().to_value()["n"], 0);
    }
}

#[test]
fn trees_cross_over_and_back() {
    let text = r#"{"a":[1,-2,2.5,"s\n\"q\"",true,null,{"b":{}}],"c":false}"#;
    let tree = json(text);
    assert_eq!(tree.to_value(), value(text));
    assert_eq!(tree.to_text(), text);
    assert_eq!(tree.clone().to_value(), value(text));
    let inner = tree.get_nested("a", "b");
    assert!(inner.is_none());
    assert_eq!(tree.get("c").unwrap().to_value(), value("false"));
    assert_eq!(json(r#"{"x": "y"}"#).get_str("x"), Some("y"));
}

#[test]
fn the_later_member_of_a_name_counts() {
    let twice = Json::Object(vec![
        ("k".to_string(), Json::text("first")),
        ("k".to_string(), Json::text("second")),
    ]);
    assert_eq!(twice.get_str("k"), Some("second"));
    assert_eq!(twice.to_text(), r#"{"k":"second"}"#);
    let (name, only) = twice.only_member().unwrap();
    assert_eq!(name, "k");
    assert_eq!(only.as_str(), Some("second"));
    assert_eq!(Json::Null.with("k", Json::Null).to_value(), value("null"));
}

#[test]
fn a_sent_request_is_read_back() {
    let message = control_request("id-1", json(r#"{"subtype": "x", "type": "y"}"#));
    let read = IncomingControlRequest::from_json(&message).unwrap();
    assert_eq!(read.request_id, "id-1");
    assert_eq!(read.request.to_value(), value(r#"{"subtype": "x", "type": "y"}"#));
    assert!(ControlResponse::from_json(&message).is_none());
}

#[test]
fn a_reply_is_read_back() {
    let message = success_response("id-2", json(r#"{"request_id": "inner"}"#));
    let read = ControlResponse::from_json(&message).unwrap();
    assert_eq!(read.request_id, "id-2");
    assert_eq!(read.response.subtype, "success");
    assert_eq!(
        read.response.data.to_value(),
        value(r#"{"response": {"request_id": "inner"}}"#)
    );
}

#[test]
fn a_waiter_stays_through_other_traffic() {
    let mut query = started();
    let first = query.register_request(Json::object(), "t").unwrap();
    query.set_sdk_mcp_servers(vec![("a".to_string(), 1)]);
    let second = query.initialize(vec![]).unwrap();
    assert_ne!(first.waiter, second.waiter);
    assert!(matches!(query.route_message(json(r#"{"type": "user"}"#)), RouteAction::Forward(_)));
    assert!(matches!(
        query.route_message(answer(&second.request_id)),
        RouteAction::Deliver { .. }
    ));
    let incoming = r#"{"type": "control_request", "request_id": "req_0_t", "request": {}}"#;
    assert!(matches!(query.route_message(json(incoming)), RouteAction::Handle(_)));
    match query.route_message(answer(&first.request_id)) {
        RouteAction::Deliver { waiter, .. } => assert_eq!(waiter, first.waiter),
        other => panic!("expected Deliver, got {:?}", other),
    }
}

#[test]
fn only_regular_messages_reach_the_stream_in_order() {
    let mut query = started();
    let outgoing = query.register_request(Json::object(), "t").unwrap();
    let received = vec![
        json(r#"{"type": "system", "n": 1}"#),
        answer(&outgoing.request_id),
        json(r#"{"type": "assistant", "n": 2}"#),
        json(r#"{"type": "control_request", "request_id": "a", "request": {}}"#),
        json(r#"{"type": "control_response"}"#),
        json(r#"{"n": 3}"#),
    ];
    let mut stream = Vec::new();
    for message in received {
        if let RouteAction::Forward(message) = query.route_message(message) {
            stream.push(message.to_value()["n"].clone());
        }
    }
    assert_eq!(stream, vec![value("1"), value("2"), value("3")]);
}

#[test]
fn an_unanswered_write_failure_leaves_the_waiter_to_be_answered() {
    let mut query = started();
    let outgoing = query.register_request(Json::object(), "t").unwrap();
    let failed = settle(SendEvent::WriteFailed(ClaudeError::Transport("gone".to_string())));
    assert!(failed.is_err());
    assert!(matches!(
        query.route_message(answer(&outgoing.request_id)),
        RouteAction::Deliver { .. }
    ));
}

fn one_event(hooks: Vec<u64>) -> Vec<(String, Vec<HookMatcher>)> {
    vec![("Stop".to_string(), vec![HookMatcher { matcher: None, hooks, timeout: None }])]
}

fn announced(text: &str) -> serde_json::Value {
    value(text)["request"]["hooks"]["Stop"][0]["hookCallbackIds"].clone()
}

fn callback_of(query: &QueryFull, id: &str) -> Option<u64> {
    let text = format!(r#"{{"subtype": "hook_callback", "callback_id": "{id}"}}"#);
    match query.handle_control_request(request(&text)) {
        Ok(ControlAction::RunHook(call)) => Some(call.callback),
        _ => None,
    }
}

#[test]
fn a_request_is_numbered_by_those_begun_before_it() {
    let mut query = started();
    let senders: Vec<fn(&mut QueryFull) -> String> = vec![
        |q| q.interrupt().unwrap().request_id,
        |q| q.initialize(vec![]).unwrap().request_id,
        |q| q.set_model(None).unwrap().request_id,
        |q| q.rewind_files("u").unwrap().request_id,
        |q| q.register_request(Json::object(), "t").unwrap().request_id,
        |q| q.register_request(Json::object(), "t").unwrap().request_id,
    ];
    let mut ids: Vec<String> = Vec::new();
    for (n, send) in senders.into_iter().enumerate() {
        let id = send(&mut query);
        assert!(id.starts_with(&format!("req_{n}_")));
        assert!(!ids.contains(&id));
        // Neither a failed write nor an answer takes the number back.
        if n % 2 == 0 {
            query.route_message(answer(&id));
        }
        ids.push(id);
    }
}

#[test]
fn hook_identifiers_count_on_over_all_initializations() {
    let mut query = started();
    let first = query.initialize(one_event(vec![20, 21])).unwrap();
    assert_eq!(announced(&first.text), value(r#"["hook_0", "hook_1"]"#));
    let failed = query.finish_initialize(settle(SendEvent::Released));
    assert!(failed.is_err());
    let none = query.initialize(one_event(vec![])).unwrap();
    assert_eq!(announced(&none.text), value("[]"));
    let second = query.initialize(one_event(vec![22, 23, 24])).unwrap();
    assert_eq!(announced(&second.text), value(r#"["hook_2", "hook_3", "hook_4"]"#));
    // The callbacks of a request that is withdrawn keep their numbers too.
    query.reader_exit(None);
    assert!(query.initialize(one_event(vec![25])).is_err());
    assert!(query.initialize(one_event(vec![26])).is_err());
    for n in 0..7u64 {
        assert_eq!(callback_of(&query, &format!("hook_{n}")), Some(20 + n));
    }
    assert_eq!(callback_of(&query, "hook_7"), None);
}

#[test]
fn failed_initializations_leave_no_result() {
    let mut query = started();
    query.initialize(vec![]).unwrap();
    assert!(query.finish_initialize(settle(SendEvent::Released)).is_err());
    let failed = SendEvent::WriteFailed(ClaudeError::Transport("gone".to_string()));
    assert!(query.finish_initialize(settle(failed)).is_err());
    query.interrupt().unwrap();
    query.reader_exit(Some("broken".to_string()));
    assert!(query.get_initialization_result().is_none());
}
