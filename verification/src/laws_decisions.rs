//! What holds of single decisions: where a message goes, what a request of the peer asks for, how
//! it is answered, and what the answer to a request of one's own means.

use crate::encode;
use crate::envelope::{IncomingControlRequestView, RoutedControlResponseView};
use crate::errors::{ClaudeErrorView, RoutedSendFailureView};
use crate::hooks;
use crate::hooks::{EventHooksView, HookMatcher, HookTableView};
use crate::ident;
use crate::interrupt;
use crate::interrupt::{
    InterruptError, InterruptErrorView, InterruptQueryError, InterruptQueryErrorView,
    InterruptRequestAccepted, InterruptRequestAcceptedView,
};
use crate::json::{Json, JsonView};
use crate::laws;
use crate::laws_wire;
use crate::model;
use crate::permission;
use crate::permission::{PermissionMode, PermissionResult};
use crate::protocol;
use crate::protocol::{
    ControlAction, ControlActionView, HookCall, HookOutcome, McpCall, OutgoingRequestView,
    PermissionCall, QueryEvent, QueryView, RouteAction, RouteActionView, SendEvent,
};
use crate::table;
use vstd::prelude::*;

verus! {

/// A control request of the peer is handed on with exactly its identifier and its request, and
/// nothing about the query changes. One out of form is dropped.
pub proof fn law_control_requests_are_handed_on(query: QueryView, message: JsonView)
    requires
        message.member("type"@) == Some(JsonView::String("control_request"@)),
    ensures
        query.route(message).0 == query,
        match (message.member("request_id"@), message.member("request"@)) {
            (Some(JsonView::String(request_id)), Some(request)) => query.route(message).1
                == RouteActionView::Handle(IncomingControlRequestView { request_id, request }),
            _ => query.route(message).1 == RouteActionView::Ignore,
        },
{
    lemma_kinds_differ();
}

/// A control response goes to the waiter that is entered under its identifier, with its subtype
/// and everything else that stood beside it, and that entry is removed; nothing else changes. One
/// that nothing waits for, or one out of form, is dropped and changes nothing.
pub proof fn law_control_responses_are_delivered(
    query: QueryView,
    message: JsonView,
    name: Seq<char>,
)
    requires
        message.member("type"@) == Some(JsonView::String("control_response"@)),
    ensures
        ({
            let (after, action) = query.route(message);
            match (
                message.nested("response"@, "subtype"@),
                message.nested("response"@, "request_id"@),
            ) {
                (
                    Some(JsonView::String(subtype)),
                    Some(JsonView::String(request_id)),
                ) if query.pending.contains_key(request_id) => {
                    &&& after == (QueryView { pending: after.pending, ..query })
                    &&& after.pending == query.pending.remove(request_id)
                    &&& action matches RouteActionView::Deliver { waiter, response }
                    &&& waiter == query.pending[request_id]
                    &&& response.subtype == subtype
                    &&& response.data is Object
                    &&& response.data.member(name) == if name == "subtype"@ || name
                        == "request_id"@ {
                        None
                    } else {
                        message.nested("response"@, name)
                    }
                },
                _ => after == query && action == RouteActionView::Ignore,
            }
        }),
{
    laws_wire::law_responses_are_read(message, name);
}

/// Every message whose type is neither that of a control request nor that of a control response
/// goes to the stream as it is, and nothing about the query changes.
pub proof fn law_other_messages_go_to_the_stream(query: QueryView, message: JsonView)
    requires
        message.member("type"@) != Some(JsonView::String("control_request"@)),
        message.member("type"@) != Some(JsonView::String("control_response"@)),
    ensures
        query.route(message) == (query, RouteActionView::Forward(message)),
{
}

/// The two types of control messages are distinct.
proof fn lemma_kinds_differ()
    ensures
        "control_request"@ != "control_response"@,
{
    reveal_strlit("control_request");
    reveal_strlit("control_response");
    assert("control_request"@.len() == 15 && "control_response"@.len() == 16);
}

/// What the reader has to do is seen field by field.
pub proof fn law_route_actions_are_seen_field_by_field(action: RouteAction)
    ensures
        match action {
            RouteAction::Deliver { waiter, response } => action@ == (RouteActionView::Deliver {
                waiter,
                response: response@,
            }),
            RouteAction::Handle(request) => action@ == RouteActionView::Handle(request@),
            RouteAction::Forward(message) => action@ == RouteActionView::Forward(message@),
            RouteAction::Ignore => action@ == RouteActionView::Ignore,
        },
{
}

/// What a request of the peer asks for is seen field by field.
pub proof fn law_control_actions_are_seen_field_by_field(action: ControlAction)
    ensures
        match action {
            ControlAction::AskPermission(call) => {
                &&& action@ matches ControlActionView::AskPermission {
                    request_id,
                    callback,
                    tool_name,
                    input,
                    suggestions,
                }
                &&& request_id == call.request_id@
                &&& callback == call.callback
                &&& tool_name == call.tool_name@
                &&& input == call.input@
                &&& suggestions == match call.suggestions {
                    Some(value) => Some(value@),
                    None => None,
                }
            },
            ControlAction::RunHook(call) => {
                &&& action@ matches ControlActionView::RunHook {
                    request_id,
                    callback,
                    input,
                    tool_use_id,
                }
                &&& request_id == call.request_id@
                &&& callback == call.callback
                &&& input == call.input@
                &&& tool_use_id == match call.tool_use_id {
                    Some(text) => Some(text@),
                    None => None,
                }
            },
            ControlAction::CallMcpServer(call) => action@ == (ControlActionView::CallMcpServer {
                request_id: call.request_id@,
                server: call.server,
                message: call.message@,
            }),
        },
{
}

/// A query to which nothing has happened holds nothing.
pub proof fn law_new_query_holds_nothing(id: Seq<char>)
    ensures
        ({
            let query = QueryView::fresh();
            &&& !query.started
            &&& !query.reader_exited
            &&& query.request_counter == 0
            &&& query.hooks.next == 0
            &&& query.can_use_tool is None
            &&& query.reader_can_use_tool is None
            &&& query.initialization is None
            &&& !query.pending.contains_key(id)
            &&& !query.servers.contains_key(id)
            &&& !query.hooks.entries.contains_key(id)
        }),
{
}

/// A request is registered under its identifier with a waiter of the counter's number, and the
/// JSON text of its frame is what is to be written. Once the reader has exited it is refused, and
/// nothing waits under its identifier. Either way the counter goes one up, and nothing else
/// changes.
pub proof fn law_registration(
    query: QueryView,
    request: JsonView,
    token: Seq<char>,
    other: Seq<char>,
)
    ensures
        ({
            let (after, result) = query.register(request, token);
            let id = ident::request_id(query.request_counter, token);
            &&& after == (QueryView {
                request_counter: after.request_counter,
                pending: after.pending,
                ..query
            })
            &&& after.request_counter == if query.request_counter == u64::MAX {
                0
            } else {
                query.request_counter + 1
            }
            &&& other != id ==> table::entry_of(after.pending, other) == table::entry_of(
                query.pending,
                other,
            )
            &&& if query.reader_exited {
                &&& result == Err::<OutgoingRequestView, RoutedSendFailureView>(
                    RoutedSendFailureView::NoAcknowledgement,
                )
                &&& !after.pending.contains_key(id)
            } else {
                &&& after.pending.contains_key(id)
                &&& after.pending[id] == query.request_counter
                &&& result matches Ok(outgoing)
                &&& outgoing.waiter == query.request_counter
                &&& outgoing.request_id == id
                &&& outgoing.text == encode::json_text(
                    JsonView::Object(
                        map![
                            "type"@ => JsonView::String("control_request"@),
                            "request_id"@ => JsonView::String(id),
                            "request"@ => request,
                        ],
                    ),
                )
            }
        }),
{
}

/// Sending a request writes it as it is under a fresh identifier exactly where the reader has not
/// exited, and changes the query as its registration does.
pub proof fn law_sending(
    query: QueryView,
    request: JsonView,
    after: QueryView,
    result: Result<OutgoingRequestView, RoutedSendFailureView>,
)
    requires
        query.sends(request, after, result),
    ensures
        exists|token: Seq<char>|
            {
                &&& ident::is_simple_uuid(token)
                &&& (after, result) == #[trigger] query.register(request, token)
            },
        result is Ok <==> !query.reader_exited,
{
}

/// The entry of a name is what the table holds under it.
pub proof fn law_entries_are_what_the_table_holds(
    entries: Map<Seq<char>, u64>,
    name: Seq<char>,
    handle: u64,
)
    ensures
        table::entry_of(entries, name) == Some(handle) <==> entries.contains_key(name)
            && entries[name] == handle,
        table::entry_of(entries, name) is None <==> !entries.contains_key(name),
{
}

/// The exit of the reader leaves no waiter, and changes nothing else. What is set, started,
/// entered or initialized changes that and nothing else.
pub proof fn law_events_change_only_what_they_are_about(
    query: QueryView,
    servers: Seq<(String, u64)>,
    callback: Option<u64>,
    events: Seq<EventHooksView>,
    outcome: Result<RoutedControlResponseView, RoutedSendFailureView>,
    request: JsonView,
    token: Seq<char>,
    message: JsonView,
)
    ensures
        query.exit() == (QueryView { pending: Map::empty(), reader_exited: true, ..query }),
        query.after(QueryEvent::ReaderExit) == query.exit(),
        query.after(QueryEvent::SetServers(servers)) == (QueryView {
            servers: protocol::server_table(servers),
            ..query
        }),
        query.after(QueryEvent::SetCanUseTool(callback)) == (QueryView {
            can_use_tool: callback,
            ..query
        }),
        query.after(QueryEvent::Start) == (QueryView {
            started: true,
            reader_can_use_tool: query.can_use_tool,
            ..query
        }),
        query.after(QueryEvent::EnterHooks(events)) == (QueryView {
            hooks: query.hooks.enter(hooks::events_hooks(events)),
            ..query
        }),
        query.after(QueryEvent::EndInitialization(outcome)) == (QueryView {
            initialization: match (query.initialization, outcome) {
                (Some(kept), _) => Some(kept),
                (None, Ok(answer)) => Some(answer.data),
                (None, Err(_)) => None,
            },
            ..query
        }),
        query.after(QueryEvent::EndInitialization(outcome)) == query.initialized(outcome),
        query.after(QueryEvent::Send { request, token }) == query.register(request, token).0,
        query.after(QueryEvent::Receive(message)) == query.route(message).0,
{
}

/// A request of the peer that names no subtype, or one that is unknown, is refused.
pub proof fn law_requests_name_a_known_subtype(
    query: QueryView,
    request: IncomingControlRequestView,
)
    ensures
        match request.request.member("subtype"@) {
            Some(JsonView::String(subtype)) => subtype != "can_use_tool"@ && subtype
                != "hook_callback"@ && subtype != "mcp_message"@ ==> query.control_action(request)
                == Err::<ControlActionView, ClaudeErrorView>(
                ClaudeErrorView::ControlProtocol(
                    "Unsupported control request subtype: "@ + subtype,
                ),
            ),
            _ => query.control_action(request) == Err::<ControlActionView, ClaudeErrorView>(
                ClaudeErrorView::ControlProtocol("Missing subtype"@),
            ),
        },
{
}

/// A question about a tool goes to the callback that the reader was started with, about the tool
/// that the request names, with its input, or the empty object where it has none, and with its
/// suggestions. It is refused exactly where there is no callback, or no tool is named.
pub proof fn law_permission_is_asked_for_the_named_tool(
    query: QueryView,
    request: IncomingControlRequestView,
)
    requires
        request.request.member("subtype"@) == Some(JsonView::String("can_use_tool"@)),
    ensures
        match (query.reader_can_use_tool, request.request.member("tool_name"@)) {
            (None, _) => query.control_action(request) == Err::<ControlActionView, ClaudeErrorView>(
                ClaudeErrorView::ControlProtocol("can_use_tool callback is not provided"@),
            ),
            (Some(asked), Some(JsonView::String(tool))) => {
                &&& query.control_action(request) matches Ok(
                    ControlActionView::AskPermission {
                        request_id,
                        callback,
                        tool_name,
                        input,
                        suggestions,
                    },
                )
                &&& request_id == request.request_id
                &&& callback == asked
                &&& tool_name == tool
                &&& match request.request.member("input"@) {
                    Some(value) => input == value,
                    None => input == JsonView::Object(Map::empty()),
                }
                &&& suggestions == request.request.member("permission_suggestions"@)
            },
            _ => query.control_action(request) == Err::<ControlActionView, ClaudeErrorView>(
                ClaudeErrorView::ControlProtocol("Missing tool_name"@),
            ),
        },
{
}

/// A hook callback that a request names by its identifier is run with the request's input, or the
/// empty object where it has none, and with the identifier of the tool use where that is a string.
/// The request is refused exactly where it names no callback, or one that is not entered.
pub proof fn law_named_hook_is_run(query: QueryView, request: IncomingControlRequestView)
    requires
        request.request.member("subtype"@) == Some(JsonView::String("hook_callback"@)),
    ensures
        match request.request.member("callback_id"@) {
            Some(JsonView::String(id)) => if query.hooks.entries.contains_key(id) {
                &&& query.control_action(request) matches Ok(
                    ControlActionView::RunHook { request_id, callback, input, tool_use_id },
                )
                &&& request_id == request.request_id
                &&& callback == query.hooks.entries[id]
                &&& match request.request.member("input"@) {
                    Some(value) => input == value,
                    None => input == JsonView::Object(Map::empty()),
                }
                &&& match request.request.member("tool_use_id"@) {
                    Some(JsonView::String(text)) => tool_use_id == Some(text),
                    _ => tool_use_id is None,
                }
            } else {
                query.control_action(request) == Err::<ControlActionView, ClaudeErrorView>(
                    ClaudeErrorView::ControlProtocol("Hook callback not found: "@ + id),
                )
            },
            _ => query.control_action(request) == Err::<ControlActionView, ClaudeErrorView>(
                ClaudeErrorView::ControlProtocol("Missing callback_id"@),
            ),
        },
{
    lemma_subtypes_differ();
}

/// A message for a tool server reaches the server of that name with exactly the value that the
/// request carries. The request is refused exactly where it names no server, carries no message,
/// or names a server that there is not.
pub proof fn law_named_server_gets_the_message(
    query: QueryView,
    request: IncomingControlRequestView,
)
    requires
        request.request.member("subtype"@) == Some(JsonView::String("mcp_message"@)),
    ensures
        match (request.request.member("server_name"@), request.request.member("message"@)) {
            (Some(JsonView::String(name)), Some(message)) => if query.servers.contains_key(name) {
                query.control_action(request) == Ok::<ControlActionView, ClaudeErrorView>(
                    ControlActionView::CallMcpServer {
                        request_id: request.request_id,
                        server: query.servers[name],
                        message,
                    },
                )
            } else {
                query.control_action(request) == Err::<ControlActionView, ClaudeErrorView>(
                    ClaudeErrorView::ControlProtocol("SDK MCP server not found: "@ + name),
                )
            },
            (Some(JsonView::String(_)), None) => query.control_action(request) == Err::<
                ControlActionView,
                ClaudeErrorView,
            >(ClaudeErrorView::ControlProtocol("Missing message for mcp_message"@)),
            _ => query.control_action(request) == Err::<ControlActionView, ClaudeErrorView>(
                ClaudeErrorView::ControlProtocol("Missing server_name for mcp_message"@),
            ),
        },
{
    lemma_subtypes_differ();
}

/// The subtypes of control requests are distinct.
proof fn lemma_subtypes_differ()
    ensures
        "can_use_tool"@ != "hook_callback"@,
        "can_use_tool"@ != "mcp_message"@,
        "hook_callback"@ != "mcp_message"@,
{
    reveal_strlit("can_use_tool");
    reveal_strlit("hook_callback");
    reveal_strlit("mcp_message");
    assert("can_use_tool"@.len() == 12 && "hook_callback"@.len() == 13);
    assert("mcp_message"@.len() == 11);
}

/// The frame of an answer with the payload, as JSON text.
pub open spec fn answer_text(request_id: Seq<char>, payload: JsonView) -> Seq<char> {
    encode::json_text(
        JsonView::Object(
            map![
                "type"@ => JsonView::String("control_response"@),
                "response"@ => JsonView::Object(
                    map![
                        "subtype"@ => JsonView::String("success"@),
                        "request_id"@ => JsonView::String(request_id),
                        "response"@ => payload,
                    ],
                ),
            ],
        ),
    )
}

/// A hook call is answered with the very value that the callback returned, whatever it is, under
/// the identifier of the request. Where the input or the output was rejected, the reason is given
/// and nothing is written.
pub proof fn law_hook_is_answered_with_what_it_returned(call: HookCall, output: Json, reason: String)
    ensures
        protocol::reply_text(
            call.request_id@,
            protocol::hook_payload(HookOutcome::Returned(output)),
        ) == Ok::<Seq<char>, ClaudeErrorView>(answer_text(call.request_id@, output@)),
        protocol::reply_text(
            call.request_id@,
            protocol::hook_payload(HookOutcome::InputRejected(reason)),
        ) == Err::<Seq<char>, ClaudeErrorView>(
            ClaudeErrorView::ControlProtocol("Failed to parse hook input: "@ + reason@),
        ),
        protocol::reply_text(
            call.request_id@,
            protocol::hook_payload(HookOutcome::OutputRejected(reason)),
        ) == Err::<Seq<char>, ClaudeErrorView>(
            ClaudeErrorView::ControlProtocol("Failed to serialize hook output: "@ + reason@),
        ),
{
}

/// A message for a tool server is answered with the server's very response as the one member of
/// the payload. Where the server failed, its reason is given and nothing is written.
pub proof fn law_server_is_answered_for(call: McpCall, response: Json, reason: String)
    ensures
        protocol::reply_text(
            call.request_id@,
            protocol::mcp_payload(model::result_view(Ok::<Json, String>(response))),
        ) == Ok::<Seq<char>, ClaudeErrorView>(
            answer_text(
                call.request_id@,
                JsonView::Object(map!["mcp_response"@ => response@]),
            ),
        ),
        protocol::reply_text(
            call.request_id@,
            protocol::mcp_payload(model::result_view(Err::<Json, String>(reason))),
        ) == Err::<Seq<char>, ClaudeErrorView>(
            ClaudeErrorView::ControlProtocol("MCP server error: "@ + reason@),
        ),
{
}

/// A question about a tool is answered with the decision that was taken, and no more than it
/// says. An allowed tool runs with the updated input, or with the input that was asked about, and
/// carries the updated permissions where there are some, or none of them where they could not be
/// written. A denial carries its message, and the interrupt flag exactly where it is set.
pub proof fn law_permission_is_answered_with_the_decision(
    call: PermissionCall,
    result: PermissionResult,
)
    ensures
        protocol::reply_text(
            call.request_id@,
            Ok(permission::permission_payload(result@, call.input@)),
        ) == Ok::<Seq<char>, ClaudeErrorView>(
            answer_text(
                call.request_id@,
                permission::permission_payload(result@, call.input@),
            ),
        ),
        ({
            let payload = permission::permission_payload(result@, call.input@);
            match result {
                PermissionResult::Allow(allow) => {
                    let input = match allow.updated_input {
                        Some(updated) => updated@,
                        None => call.input@,
                    };
                    payload == match allow.updated_permissions {
                        Some(Some(permissions)) => JsonView::Object(
                            map![
                                "behavior"@ => JsonView::String("allow"@),
                                "updatedInput"@ => input,
                                "updatedPermissions"@ => permissions@,
                            ],
                        ),
                        Some(None) => JsonView::Object(
                            map![
                                "behavior"@ => JsonView::String("allow"@),
                                "updatedInput"@ => input,
                                "updatedPermissions"@ => JsonView::Array(Seq::empty()),
                            ],
                        ),
                        None => JsonView::Object(
                            map![
                                "behavior"@ => JsonView::String("allow"@),
                                "updatedInput"@ => input,
                            ],
                        ),
                    }
                },
                PermissionResult::Deny(deny) => payload == if deny.interrupt {
                    JsonView::Object(
                        map![
                            "behavior"@ => JsonView::String("deny"@),
                            "message"@ => JsonView::String(deny.message@),
                            "interrupt"@ => JsonView::Bool(true),
                        ],
                    )
                } else {
                    JsonView::Object(
                        map![
                            "behavior"@ => JsonView::String("deny"@),
                            "message"@ => JsonView::String(deny.message@),
                        ],
                    )
                },
            }
        }),
{
}

/// A request of one's own ends with its answer as it came, with the failure to write it as it
/// was, or without an acknowledgement.
pub proof fn law_requests_end_as_they_did(event: SendEvent)
    ensures
        match event {
            SendEvent::WriteFailed(error) => model::result_view(protocol::settled(event)) == Err::<
                RoutedControlResponseView,
                RoutedSendFailureView,
            >(RoutedSendFailureView::Write(error@)),
            SendEvent::Answered(response) => model::result_view(protocol::settled(event)) == Ok::<
                RoutedControlResponseView,
                RoutedSendFailureView,
            >(response@),
            SendEvent::Released => model::result_view(protocol::settled(event)) == Err::<
                RoutedControlResponseView,
                RoutedSendFailureView,
            >(RoutedSendFailureView::NoAcknowledgement),
        },
{
}

/// A caller of the generic path gets the data of the response whole, whatever its subtype, or the
/// transport's failure, or a closed channel.
pub proof fn law_generic_requests_return_the_data(
    routed: RoutedControlResponseView,
    error: ClaudeErrorView,
)
    ensures
        protocol::response_data(Ok(routed)) == Ok::<JsonView, ClaudeErrorView>(routed.data),
        protocol::response_data(Err(RoutedSendFailureView::Write(error))) == Err::<
            JsonView,
            ClaudeErrorView,
        >(error),
        protocol::response_data(Err(RoutedSendFailureView::NoAcknowledgement)) == Err::<
            JsonView,
            ClaudeErrorView,
        >(ClaudeErrorView::ControlProtocol("Control request response channel closed"@)),
{
}

/// An interrupt ends with what came of it: acceptance with the receipt of a success, the message
/// of an error that carries one, the transport's failure whole, a missing acknowledgement, and
/// anything else as unusable with its subtype.
pub proof fn law_interrupts_end_with_what_came_of_them(
    routed: RoutedControlResponseView,
    source: ClaudeErrorView,
)
    ensures
        routed.subtype == "success"@ ==> interrupt::interrupt_outcome(Ok(routed)) == Ok::<
            InterruptRequestAcceptedView,
            InterruptQueryErrorView,
        >(
            (InterruptRequestAcceptedView {
                still_queued: interrupt::still_queued_of(routed.data),
            }),
        ),
        routed.subtype == "error"@ ==> match routed.data.member("error"@) {
            Some(JsonView::String(message)) => interrupt::interrupt_outcome(Ok(routed)) == Err::<
                InterruptRequestAcceptedView,
                InterruptQueryErrorView,
            >(InterruptQueryErrorView::ErrorResponse { message }),
            _ => interrupt::interrupt_outcome(Ok(routed)) == Err::<
                InterruptRequestAcceptedView,
                InterruptQueryErrorView,
            >(InterruptQueryErrorView::UnexpectedResponse { subtype: "error"@ }),
        },
        routed.subtype != "success"@ && routed.subtype != "error"@ ==> interrupt::interrupt_outcome(
            Ok(routed),
        ) == Err::<InterruptRequestAcceptedView, InterruptQueryErrorView>(
            InterruptQueryErrorView::UnexpectedResponse { subtype: routed.subtype },
        ),
        interrupt::interrupt_outcome(Err(RoutedSendFailureView::Write(source))) == Err::<
            InterruptRequestAcceptedView,
            InterruptQueryErrorView,
        >((InterruptQueryErrorView::SendFailed { source })),
        interrupt::interrupt_outcome(Err(RoutedSendFailureView::NoAcknowledgement)) == Err::<
            InterruptRequestAcceptedView,
            InterruptQueryErrorView,
        >(InterruptQueryErrorView::AcknowledgementUnavailable),
        interrupt::interrupt_outcome(Ok(routed)) == interrupt::interrupt_reply(routed),
{
    reveal_strlit("success");
    reveal_strlit("error");
    assert("success"@.len() == 7 && "error"@.len() == 5);
}

/// There is a receipt exactly where an array of strings stands at its place, and it lists the
/// texts of that array, each in its place.
pub proof fn law_receipts_list_the_queued(data: JsonView, list: Seq<Seq<char>>)
    ensures
        interrupt::still_queued_of(data) == Some(list) <==> {
            &&& data.nested("response"@, "still_queued"@) matches Some(JsonView::Array(items))
            &&& items.len() == list.len()
            &&& forall|i: int|
                0 <= i < items.len() ==> #[trigger] items[i] == JsonView::String(list[i])
        },
{
    if let Some(JsonView::Array(items)) = data.nested("response"@, "still_queued"@) {
        let texts = items.map_values(|item: JsonView| item->String_0);
        if items.len() == list.len() && (forall|i: int|
            0 <= i < items.len() ==> #[trigger] items[i] == JsonView::String(list[i])) {
            assert(texts =~= list);
        }
        if interrupt::still_queued_of(data) == Some(list) {
            assert forall|i: int| 0 <= i < items.len() implies #[trigger] items[i]
                == JsonView::String(list[i]) by {
                assert(items[i] is String);
                assert(texts[i] == items[i]->String_0);
            }
        }
    }
}

/// Acceptance and the failures of an interrupt are seen field by field, and each failure has its
/// words.
pub proof fn law_interrupt_errors_have_their_words(
    accepted: InterruptRequestAccepted,
    failure: InterruptQueryError,
    error: InterruptError,
)
    ensures
        match accepted.still_queued {
            Some(list) => accepted@.still_queued == Some(model::texts(list@)),
            None => accepted@.still_queued is None,
        },
        match failure {
            InterruptQueryError::SendFailed { source } => failure@
                == (InterruptQueryErrorView::SendFailed { source: source@ }),
            InterruptQueryError::ErrorResponse { message } => failure@
                == (InterruptQueryErrorView::ErrorResponse { message: message@ }),
            InterruptQueryError::AcknowledgementUnavailable => failure@
                == InterruptQueryErrorView::AcknowledgementUnavailable,
            InterruptQueryError::UnexpectedResponse { subtype } => failure@
                == (InterruptQueryErrorView::UnexpectedResponse { subtype: subtype@ }),
        },
        match error {
            InterruptError::NotConnected => {
                &&& error@ == InterruptErrorView::NotConnected
                &&& error@.message() == "client is not connected"@
            },
            InterruptError::SendFailed { source } => {
                &&& error@ == InterruptErrorView::Query(
                    InterruptQueryErrorView::SendFailed { source: source@ },
                )
                &&& error@.message() == "interrupt send failed: "@ + source@.text()
            },
            InterruptError::ErrorResponse { message } => {
                &&& error@ == InterruptErrorView::Query(
                    InterruptQueryErrorView::ErrorResponse { message: message@ },
                )
                &&& error@.message() == "interrupt returned an error response: "@ + message@
            },
            InterruptError::AcknowledgementUnavailable => {
                &&& error@ == InterruptErrorView::Query(
                    InterruptQueryErrorView::AcknowledgementUnavailable,
                )
                &&& error@.message() == "no acknowledgement was obtained for the interrupt"@
            },
            InterruptError::UnexpectedResponse { subtype } => {
                &&& error@ == InterruptErrorView::Query(
                    InterruptQueryErrorView::UnexpectedResponse { subtype: subtype@ },
                )
                &&& error@.message() == "interrupt received an unusable response with subtype "@
                    + subtype@
            },
        },
{
}

/// A mode change ends with the mode that the reply spells, unless the reply reports an error,
/// carries no mode, or spells none; a request without a reply ends with its failure.
pub proof fn law_mode_changes_end_with_what_the_reply_says(
    routed: RoutedControlResponseView,
    refusal: Seq<char>,
    failure: RoutedSendFailureView,
)
    ensures
        permission::mode_outcome(Ok(routed), refusal) == permission::mode_reply(
            routed.data,
            refusal,
        ),
        permission::mode_outcome(Err(failure), refusal) == Err::<PermissionMode, ClaudeErrorView>(
            failure.error(),
        ),
        match (
            routed.data.member("error"@),
            routed.data.nested("response"@, "mode"@),
        ) {
            (Some(JsonView::String(error)), _) => permission::mode_outcome(Ok(routed), refusal)
                == Err::<PermissionMode, ClaudeErrorView>(ClaudeErrorView::ControlProtocol(error)),
            (_, None) => permission::mode_outcome(Ok(routed), refusal) == Err::<
                PermissionMode,
                ClaudeErrorView,
            >(
                ClaudeErrorView::ControlProtocol(
                    "set_permission_mode response missing response.mode"@,
                ),
            ),
            (_, Some(value)) => match permission::mode_of(value) {
                Some(mode) => permission::mode_outcome(Ok(routed), refusal) == Ok::<
                    PermissionMode,
                    ClaudeErrorView,
                >(mode),
                None => permission::mode_outcome(Ok(routed), refusal) == Err::<
                    PermissionMode,
                    ClaudeErrorView,
                >(
                    ClaudeErrorView::ControlProtocol(
                        "set_permission_mode response contained invalid mode: "@ + refusal,
                    ),
                ),
            },
        },
{
}

/// Every matcher of every event is announced in its place under the event's name, as it was given:
/// its pattern, or null exactly where it has none, its timeout exactly where it has one, and as
/// many identifiers as it has callbacks, which count on from those before it. No name is announced
/// but that of an event.
pub proof fn law_matchers_are_announced_in_their_places(
    events: Seq<(String, Vec<HookMatcher>)>,
    first: u64,
    i: int,
    j: int,
    p: int,
    name: Seq<char>,
)
    requires
        0 <= i < events.len(),
        forall|k: int| i < k < events.len() ==> (#[trigger] events[k]).0@ != events[i].0@,
    ensures
        ({
            let views = hooks::events_view(events);
            let config = hooks::events_config(views, first);
            let given = events[i].1@[j];
            &&& config is Object
            &&& config.member(events[i].0@) matches Some(JsonView::Array(matchers))
            &&& matchers.len() == events[i].1@.len()
            &&& 0 <= j < matchers.len() ==> {
                &&& matchers[j] is Object
                &&& matchers[j].member("matcher"@) == Some(
                    match given.matcher {
                        Some(text) => JsonView::String(text@),
                        None => JsonView::Null,
                    },
                )
                &&& matchers[j].member("timeout"@) == match given.timeout {
                    Some(timeout) => Some(timeout@),
                    None => None,
                }
                &&& matchers[j].member("hookCallbackIds"@) matches Some(JsonView::Array(ids))
                &&& ids.len() == given.hooks@.len()
                &&& 0 <= p < ids.len() ==> ids[p] == JsonView::String(
                    ident::hook_id(
                        hooks::counted(
                            first,
                            hooks::callbacks_before(views, i, j) + (p as nat),
                        ),
                    ),
                )
            }
            &&& config.member(name) is Some ==> exists|k: int|
                0 <= k < events.len() && (#[trigger] events[k]).0@ == name
        }),
{
    let views = hooks::events_view(events);
    laws_wire::law_hooks_are_seen_part_by_part(events[i].1@[j], events, i, j);
    assert forall|k: int| i < k < views.len() implies (#[trigger] views[k]).event
        != views[i].event by {
        assert(events[k].0@ != events[i].0@);
    }
    let offset = hooks::events_hooks(views.take(i)).len();
    let start = hooks::counted(first, offset);
    laws::lemma_event_announced(views, first, i);
    laws::lemma_matchers_config_len(views[i].matchers, start);
    if 0 <= j < events[i].1@.len() {
        let before = hooks::matchers_hooks(views[i].matchers.take(j)).len();
        laws::lemma_matcher_announced(views[i].matchers, start, j);
        hooks::lemma_counted(first, offset, before);
        hooks::lemma_counted(first, offset + before, p as nat);
        laws_wire::law_matcher_is_announced_as_given(
            events[i].1@[j],
            hooks::counted(first, offset + before),
            p,
            name,
        );
    }
    if hooks::events_config(views, first).member(name) is Some {
        lemma_announced_names(views, first, name);
        let k = choose|k: int| 0 <= k < views.len() && (#[trigger] views[k]).event == name;
        assert(events[k].0@ == name);
    }
}

/// Only the names of events are announced.
proof fn lemma_announced_names(events: Seq<EventHooksView>, first: u64, name: Seq<char>)
    requires
        hooks::events_config(events, first).member(name) is Some,
    ensures
        exists|k: int| 0 <= k < events.len() && (#[trigger] events[k]).event == name,
    decreases events.len(),
{
    if events.len() > 0 {
        let before = events.drop_last();
        let last = events.len() - 1;
        if events[last].event != name {
            lemma_announced_names(before, first, name);
            let k = choose|k: int| 0 <= k < before.len() && (#[trigger] before[k]).event == name;
            assert(events[k].event == name);
        }
    }
}

/// Callbacks are counted one by one in the order in which they are given: the first matcher of the
/// first event has none before it, each next matcher of an event has those of the one before on
/// top, the next event goes on where the last one ended, and all of them are entered.
pub proof fn law_callbacks_are_counted_in_order(events: Seq<EventHooksView>, i: int, j: int)
    ensures
        events.len() == 0 ==> hooks::events_hooks(events).len() == 0,
        0 <= i < events.len() ==> {
            let matchers = events[i].matchers;
            &&& i == 0 ==> hooks::callbacks_before(events, i, 0) == 0
            &&& 0 <= j < matchers.len() ==> hooks::callbacks_before(events, i, j + 1)
                == hooks::callbacks_before(events, i, j) + matchers[j].hooks.len()
            &&& i + 1 < events.len() ==> hooks::callbacks_before(events, i + 1, 0)
                == hooks::callbacks_before(events, i, matchers.len() as int)
            &&& i + 1 == events.len() ==> hooks::events_hooks(events).len()
                == hooks::callbacks_before(events, i, matchers.len() as int)
        },
{
    if 0 <= i < events.len() {
        let matchers = events[i].matchers;
        assert(events.take(0) =~= Seq::<EventHooksView>::empty());
        assert(events.take(i + 1).drop_last() =~= events.take(i));
        assert(events.take(events.len() as int) =~= events);
        assert(matchers.take(0).len() == 0);
        assert(matchers.take(matchers.len() as int) =~= matchers);
        if i + 1 < events.len() {
            assert(events[i + 1].matchers.take(0).len() == 0);
        }
        if 0 <= j < matchers.len() {
            assert(matchers.take(j + 1).drop_last() =~= matchers.take(j));
        }
    }
}

/// Entering callbacks counts them and puts each under its own identifier; what any other
/// identifier stands for stays.
pub proof fn law_entering_puts_each_callback_in_its_place(
    table_before: HookTableView,
    callbacks: Seq<u64>,
    k: int,
    id: Seq<char>,
)
    requires
        0 <= k < callbacks.len() <= u64::MAX + 1,
        forall|m: int|
            0 <= m < callbacks.len() ==> id != #[trigger] ident::hook_id(
                hooks::counted(table_before.next, m as nat),
            ),
    ensures
        table_before.enter(callbacks).next == hooks::counted(table_before.next, callbacks.len()),
        table::entry_of(
            table_before.enter(callbacks).entries,
            ident::hook_id(hooks::counted(table_before.next, k as nat)),
        ) == Some(callbacks[k]),
        table::entry_of(table_before.enter(callbacks).entries, id) == table::entry_of(
            table_before.entries,
            id,
        ),
{
    laws::law_entered_hook_is_found(table_before, callbacks, k);
    laws::lemma_entered_elsewhere(table_before.entries, table_before.next, callbacks, id);
}

} // verus!
