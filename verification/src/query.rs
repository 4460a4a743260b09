//! The state of a query and its decisions: which message goes where, what a control request asks
//! for, how a control request is sent.
//!
//! Nothing here reads, writes or waits. A caller hands in what it received and does what comes
//! back: it writes texts to the transport, wakes waiters, runs callbacks and hands in what they
//! returned.

use crate::envelope;
use crate::envelope::{ControlResponse, IncomingControlRequest, RoutedControlResponse};
use crate::errors::{ClaudeError, ClaudeErrorView, RoutedSendFailure};
use crate::hooks;
use crate::hooks::{HookMatcher, HookTable};
use crate::ident;
use crate::json;
use crate::json::Json;
use crate::model;
use crate::permission;
use crate::permission::{PermissionMode, PermissionResult};
use crate::protocol;
use crate::protocol::{
    ControlAction, HookCall, HookOutcome, McpCall, OutgoingRequest, PermissionCall, QueryEvent,
    QueryView, RouteAction, SendEvent,
};
use crate::table;
use vstd::prelude::*;

verus! {

/// A query with its bidirectional control protocol.
///
/// Callbacks, tool servers and waiters are known here by the handles that the caller gives them.
pub struct QueryFull {
    hook_callbacks: HookTable,
    sdk_mcp_servers: dashmap::DashMap<String, u64>,
    can_use_tool: Option<u64>,
    /// The tool permission callback that was set when the reader was started.
    reader_can_use_tool: Option<u64>,
    request_counter: u64,
    pending_responses: dashmap::DashMap<String, u64>,
    started: bool,
    initialization_result: Option<Json>,
    reader_has_exited: bool,
}

impl View for QueryFull {
    type V = QueryView;

    closed spec fn view(&self) -> QueryView {
        QueryView {
            hooks: self.hook_callbacks@,
            servers: table::table_entries(self.sdk_mcp_servers),
            can_use_tool: self.can_use_tool,
            reader_can_use_tool: self.reader_can_use_tool,
            request_counter: self.request_counter,
            pending: table::table_entries(self.pending_responses),
            started: self.started,
            initialization: model::option_view(self.initialization_result),
            reader_exited: self.reader_has_exited,
        }
    }
}

impl QueryFull {
    /// A query to which nothing has happened.
    pub fn new() -> (r: QueryFull)
        ensures
            r@ == QueryView::fresh(),
    {
        QueryFull {
            hook_callbacks: HookTable::new(),
            sdk_mcp_servers: table::new_table(),
            can_use_tool: None,
            reader_can_use_tool: None,
            request_counter: 0,
            pending_responses: table::new_table(),
            started: false,
            initialization_result: None,
            reader_has_exited: false,
        }
    }

    /// Replaces the tool servers.
    pub fn set_sdk_mcp_servers(&mut self, servers: Vec<(String, u64)>)
        ensures
            final(self)@ == (QueryView {
                servers: protocol::server_table(servers@),
                ..old(self)@
            }),
            final(self)@ == old(self)@.after(QueryEvent::SetServers(servers@)),
    {
        table::clear_table(&mut self.sdk_mcp_servers);
        let mut i: usize = 0;
        assert(servers@.take(0) =~= Seq::<(String, u64)>::empty());
        while i < servers.len()
            invariant
                i <= servers.len(),
                self@ == (QueryView {
                    servers: protocol::server_table(servers@.take(i as int)),
                    ..old(self)@
                }),
            decreases servers.len() - i,
        {
            table::insert_entry(&mut self.sdk_mcp_servers, servers[i].0.clone(), servers[i].1);
            assert(servers@.take(i + 1).drop_last() =~= servers@.take(i as int));
            i += 1;
        }
        assert(servers@.take(i as int) =~= servers@);
    }

    /// Sets the tool permission callback. A reader that was started before keeps the one that it
    /// was started with.
    pub fn set_can_use_tool(&mut self, callback: Option<u64>)
        ensures
            final(self)@ == (QueryView { can_use_tool: callback, ..old(self)@ }),
            final(self)@ == old(self)@.after(QueryEvent::SetCanUseTool(callback)),
    {
        self.can_use_tool = callback;
    }

    /// Whether the reader was started.
    pub fn is_started(&self) -> (r: bool)
        ensures
            r == self@.started,
    {
        self.started
    }

    /// Starts the reader, which can be done once.
    pub fn start(&mut self)
        requires
            !old(self)@.started,
        ensures
            final(self)@ == (QueryView {
                started: true,
                reader_can_use_tool: old(self)@.can_use_tool,
                ..old(self)@
            }),
            final(self)@ == old(self)@.after(QueryEvent::Start),
    {
        self.started = true;
        self.reader_can_use_tool = self.can_use_tool;
    }

    /// Decides what the reader does with a message.
    ///
    /// A control response goes to the waiter that its identifier names, and releases it. A control
    /// response that nothing waits for and a control message out of form are dropped. Every other
    /// message is passed on as it is.
    pub fn route_message(&mut self, message: Json) -> (r: RouteAction)
        ensures
            (final(self)@, r@) == old(self)@.route(message@),
            final(self)@ == old(self)@.after(QueryEvent::Receive(message@)),
    {
        let is_response = match message.get_str("type") {
            Some(kind) => json::same_text(kind, "control_response"),
            None => false,
        };
        let is_request = match message.get_str("type") {
            Some(kind) => json::same_text(kind, "control_request"),
            None => false,
        };
        if is_response {
            match ControlResponse::from_json(&message) {
                Some(response) => {
                    let ghost before = self@.pending;
                    let removed = table::remove_entry(
                        &mut self.pending_responses,
                        response.request_id.as_str(),
                    );
                    match removed {
                        Some(waiter) => RouteAction::Deliver {
                            waiter,
                            response: response.response,
                        },
                        None => {
                            assert(before.remove(response.request_id@) =~= before);
                            RouteAction::Ignore
                        },
                    }
                },
                None => RouteAction::Ignore,
            }
        } else if is_request {
            match IncomingControlRequest::from_json(&message) {
                Some(request) => RouteAction::Handle(request),
                None => RouteAction::Ignore,
            }
        } else {
            RouteAction::Forward(message)
        }
    }

    /// Takes note that the reader has exited, by whatever route, and releases every waiter.
    /// Returns the messages that end the stream.
    pub fn reader_exit(&mut self, stream_error: Option<String>) -> (r: Vec<Json>)
        ensures
            final(self)@ == old(self)@.exit(),
            final(self)@ == old(self)@.after(QueryEvent::ReaderExit),
            json::array_tree(r@) == protocol::sentinels(model::option_view(stream_error)),
    {
        self.reader_has_exited = true;
        table::clear_table(&mut self.pending_responses);
        let mut messages: Vec<Json> = Vec::new();
        if let Some(error) = &stream_error {
            messages.push(
                Json::object().with("type", Json::text("error")).with(
                    "error",
                    Json::text(error.as_str()),
                ),
            );
        }
        messages.push(Json::object().with("type", Json::text("end")));
        assert(json::array_tree(messages@) =~= protocol::sentinels(
            model::option_view(stream_error),
        ));
        messages
    }

    /// Decides what a control request of the peer asks for.
    pub fn handle_control_request(
        &self,
        request: IncomingControlRequest,
    ) -> (r: Result<ControlAction, ClaudeError>)
        ensures
            model::result_view(r) == self@.control_action(request@),
    {
        let data = request.request;
        let subtype = match data.get_str("subtype") {
            Some(subtype) => subtype,
            None => {
                return Err(ClaudeError::protocol("Missing subtype"));
            },
        };
        if json::same_text(subtype, "can_use_tool") {
            let callback = match self.reader_can_use_tool {
                Some(callback) => callback,
                None => {
                    return Err(ClaudeError::protocol("can_use_tool callback is not provided"));
                },
            };
            let tool_name = match data.get_str("tool_name") {
                Some(name) => name.to_owned(),
                None => {
                    return Err(ClaudeError::protocol("Missing tool_name"));
                },
            };
            let suggestions = match data.get("permission_suggestions") {
                Some(value) => Some(value.clone()),
                None => None,
            };
            return Ok(
                ControlAction::AskPermission(
                    PermissionCall {
                        request_id: request.request_id,
                        callback,
                        tool_name,
                        input: request_input(&data),
                        suggestions,
                    },
                ),
            );
        }
        if json::same_text(subtype, "hook_callback") {
            let callback_id = match data.get_str("callback_id") {
                Some(id) => id,
                None => {
                    return Err(ClaudeError::protocol("Missing callback_id"));
                },
            };
            let callback = match self.hook_callbacks.find(callback_id) {
                Some(callback) => callback,
                None => {
                    return Err(
                        ClaudeError::protocol_with("Hook callback not found: ", callback_id),
                    );
                },
            };
            let tool_use_id = match data.get_str("tool_use_id") {
                Some(id) => Some(id.to_owned()),
                None => None,
            };
            return Ok(
                ControlAction::RunHook(
                    HookCall {
                        request_id: request.request_id,
                        callback,
                        input: request_input(&data),
                        tool_use_id,
                    },
                ),
            );
        }
        if json::same_text(subtype, "mcp_message") {
            let server_name = match data.get_str("server_name") {
                Some(name) => name,
                None => {
                    return Err(ClaudeError::protocol("Missing server_name for mcp_message"));
                },
            };
            let message = match data.get("message") {
                Some(message) => message.clone(),
                None => {
                    return Err(ClaudeError::protocol("Missing message for mcp_message"));
                },
            };
            let server = match self.find_sdk_mcp_server(server_name) {
                Ok(server) => server,
                Err(error) => {
                    return Err(error);
                },
            };
            return Ok(
                ControlAction::CallMcpServer(
                    McpCall { request_id: request.request_id, server, message },
                ),
            );
        }
        Err(ClaudeError::protocol_with("Unsupported control request subtype: ", subtype))
    }

    /// The tool server of the given name.
    fn find_sdk_mcp_server(&self, server_name: &str) -> (r: Result<u64, ClaudeError>)
        ensures
            match r {
                Ok(server) => table::entry_of(self@.servers, server_name@) == Some(server),
                Err(error) => {
                    &&& table::entry_of(self@.servers, server_name@) is None
                    &&& error@ == ClaudeErrorView::ControlProtocol(
                        "SDK MCP server not found: "@ + server_name@,
                    )
                },
            },
    {
        match table::find_entry(&self.sdk_mcp_servers, server_name) {
            Some(server) => Ok(server),
            None => Err(ClaudeError::protocol_with("SDK MCP server not found: ", server_name)),
        }
    }

    /// Registers a control request under an identifier made with the token, and frames it.
    ///
    /// The reader may have released its waiters before this one was entered, in which case nothing
    /// will ever answer it. The entry is then withdrawn, and nothing is to be written.
    pub fn register_request(
        &mut self,
        request: Json,
        token: &str,
    ) -> (r: Result<OutgoingRequest, RoutedSendFailure>)
        ensures
            (final(self)@, model::result_view(r)) == old(self)@.register(request@, token@),
            final(self)@ == old(self)@.after(
                (QueryEvent::Send { request: request@, token: token@ }),
            ),
    {
        let waiter = self.request_counter;
        let request_id = ident::request_id_text(waiter, token);
        self.request_counter = waiter.wrapping_add(1);
        let ghost before = self@.pending;
        table::insert_entry(&mut self.pending_responses, request_id.clone(), waiter);
        if self.reader_has_exited {
            table::remove_entry(&mut self.pending_responses, request_id.as_str());
            assert(before.insert(request_id@, waiter).remove(request_id@) =~= before.remove(
                request_id@,
            ));
            return Err(RoutedSendFailure::NoAcknowledgement);
        }
        let text = envelope::control_request(request_id.as_str(), request).to_text();
        Ok(OutgoingRequest { waiter, request_id, text })
    }

    /// Registers a control request under a fresh identifier, and frames it.
    pub fn send_control_request_routed(
        &mut self,
        request: Json,
    ) -> (r: Result<OutgoingRequest, RoutedSendFailure>)
        ensures
            old(self)@.sends(request@, final(self)@, model::result_view(r)),
    {
        let token = ident::fresh_uuid();
        let r = self.register_request(request, token.as_str());
        assert(ident::is_simple_uuid(token@));
        r
    }

    /// Enters the hook callbacks and sends the request that announces them.
    ///
    /// The events come in the order in which their callbacks are to be numbered.
    pub fn initialize(
        &mut self,
        events: Vec<(String, Vec<HookMatcher>)>,
    ) -> (r: Result<OutgoingRequest, RoutedSendFailure>)
        ensures
            (QueryView {
                hooks: old(self)@.hooks.enter(hooks::events_hooks(hooks::events_view(events@))),
                ..old(self)@
            }).sends(
                protocol::initialize_request(
                    hooks::events_view(events@),
                    old(self)@.hooks.next,
                ),
                final(self)@,
                model::result_view(r),
            ),
    {
        let config = self.hook_callbacks.enter_events(&events);
        let hooks_config = if events.len() == 0 {
            Json::Null
        } else {
            config
        };
        let request = Json::object().with("subtype", Json::text("initialize")).with(
            "hooks",
            hooks_config,
        );
        self.send_control_request_routed(request)
    }

    /// Ends the initialization: returns the peer's answer, and keeps the first one.
    pub fn finish_initialize(
        &mut self,
        outcome: Result<RoutedControlResponse, RoutedSendFailure>,
    ) -> (r: Result<Json, ClaudeError>)
        ensures
            model::result_view(r) == protocol::response_data(model::result_view(outcome)),
            final(self)@ == old(self)@.initialized(model::result_view(outcome)),
            final(self)@ == old(self)@.after(
                QueryEvent::EndInitialization(model::result_view(outcome)),
            ),
    {
        let response = match finish_control_request(outcome) {
            Ok(response) => response,
            Err(error) => {
                return Err(error);
            },
        };
        if self.initialization_result.is_none() {
            self.initialization_result = Some(response.clone());
        }
        Ok(response)
    }

    /// The peer's answer to the initialization, once there is one.
    pub fn get_initialization_result(&self) -> (r: Option<Json>)
        ensures
            model::option_view(r) == self@.initialization,
    {
        match &self.initialization_result {
            Some(result) => Some(result.clone()),
            None => None,
        }
    }

    /// Sends an interrupt request. What its end means, `interrupt::finish_interrupt` says.
    pub fn interrupt(&mut self) -> (r: Result<OutgoingRequest, RoutedSendFailure>)
        ensures
            old(self)@.sends(
                protocol::interrupt_request(),
                final(self)@,
                model::result_view(r),
            ),
    {
        self.send_control_request_routed(Json::object().with("subtype", Json::text("interrupt")))
    }

    /// Asks for another permission mode. What the end of the request means,
    /// `permission::finish_set_permission_mode` says.
    pub fn set_permission_mode(
        &mut self,
        mode: PermissionMode,
    ) -> (r: Result<OutgoingRequest, RoutedSendFailure>)
        ensures
            old(self)@.sends(
                protocol::mode_request(mode),
                final(self)@,
                model::result_view(r),
            ),
    {
        let request = Json::object().with("subtype", Json::text("set_permission_mode")).with(
            "mode",
            Json::text(mode.as_str()),
        );
        self.send_control_request_routed(request)
    }

    /// Asks for another model; none stands for the default one.
    pub fn set_model(
        &mut self,
        model: Option<&str>,
    ) -> (r: Result<OutgoingRequest, RoutedSendFailure>)
        ensures
            old(self)@.sends(
                protocol::model_request(model::option_view(model)),
                final(self)@,
                model::result_view(r),
            ),
    {
        let request = Json::object().with("subtype", Json::text("set_model")).with(
            "model",
            Json::optional_text(model),
        );
        self.send_control_request_routed(request)
    }

    /// Asks to rewind tracked files to their state at a user message, given by its UUID.
    pub fn rewind_files(
        &mut self,
        user_message_id: &str,
    ) -> (r: Result<OutgoingRequest, RoutedSendFailure>)
        ensures
            old(self)@.sends(
                protocol::rewind_request(user_message_id@),
                final(self)@,
                model::result_view(r),
            ),
    {
        let request = Json::object().with("subtype", Json::text("rewind_files")).with(
            "user_message_id",
            Json::text(user_message_id),
        );
        self.send_control_request_routed(request)
    }
}

/// The input that a control request carries; an empty object where it carries none.
fn request_input(request: &Json) -> (r: Json)
    ensures
        r@ == protocol::input_of(request@),
{
    match request.get("input") {
        Some(input) => input.clone(),
        None => Json::object(),
    }
}

/// How a control request ended.
pub fn settle(event: SendEvent) -> (r: Result<RoutedControlResponse, RoutedSendFailure>)
    ensures
        r == match event {
            SendEvent::WriteFailed(error) => Err(RoutedSendFailure::Write(error)),
            SendEvent::Answered(response) => Ok(response),
            SendEvent::Released => Err(RoutedSendFailure::NoAcknowledgement),
        },
        r == protocol::settled(event),
{
    match event {
        SendEvent::WriteFailed(error) => Err(RoutedSendFailure::Write(error)),
        SendEvent::Answered(response) => Ok(response),
        SendEvent::Released => Err(RoutedSendFailure::NoAcknowledgement),
    }
}

/// The data of the response to a control request, whatever its subtype.
pub fn finish_control_request(
    outcome: Result<RoutedControlResponse, RoutedSendFailure>,
) -> (r: Result<Json, ClaudeError>)
    ensures
        model::result_view(r) == protocol::response_data(model::result_view(outcome)),
{
    match outcome {
        Ok(routed) => Ok(routed.data),
        Err(failure) => Err(failure.into_error()),
    }
}

/// The end of a control request whose response says nothing to its caller.
pub fn finish_acknowledged(
    outcome: Result<RoutedControlResponse, RoutedSendFailure>,
) -> (r: Result<(), ClaudeError>)
    ensures
        match (r, protocol::response_data(model::result_view(outcome))) {
            (Ok(_), Ok(_)) => true,
            (Err(error), Err(view)) => error@ == view,
            _ => false,
        },
{
    match finish_control_request(outcome) {
        Ok(_) => Ok(()),
        Err(error) => Err(error),
    }
}

/// The text that answers a control request with the payload.
fn reply(request_id: &str, payload: Json) -> (r: String)
    ensures
        Ok::<Seq<char>, ClaudeErrorView>(r@) == protocol::reply_text(
            request_id@,
            Ok(payload@),
        ),
{
    envelope::success_response(request_id, payload).to_text()
}

impl PermissionCall {
    /// The text that answers the question with the decision.
    pub fn finish(&self, result: PermissionResult) -> (r: String)
        ensures
            Ok::<Seq<char>, ClaudeErrorView>(r@) == protocol::reply_text(
                self.request_id@,
                Ok(permission::permission_payload(result@, self.input@)),
            ),
    {
        reply(
            self.request_id.as_str(),
            permission::permission_response(result, self.input.clone()),
        )
    }
}

impl HookCall {
    /// The text that reports what became of the call. Nothing is written for a call that failed.
    pub fn finish(&self, outcome: HookOutcome) -> (r: Result<String, ClaudeError>)
        ensures
            model::result_view(r) == protocol::reply_text(
                self.request_id@,
                protocol::hook_payload(outcome),
            ),
    {
        match outcome {
            HookOutcome::InputRejected(reason) => Err(
                ClaudeError::protocol_with("Failed to parse hook input: ", reason.as_str()),
            ),
            HookOutcome::OutputRejected(reason) => Err(
                ClaudeError::protocol_with("Failed to serialize hook output: ", reason.as_str()),
            ),
            HookOutcome::Returned(output) => Ok(reply(self.request_id.as_str(), output)),
        }
    }
}

impl McpCall {
    /// The text that reports what the server answered. Nothing is written for one that failed.
    pub fn finish(&self, answer: Result<Json, String>) -> (r: Result<String, ClaudeError>)
        ensures
            model::result_view(r) == protocol::reply_text(
                self.request_id@,
                protocol::mcp_payload(model::result_view(answer)),
            ),
    {
        match answer {
            Ok(response) => Ok(
                reply(self.request_id.as_str(), Json::object().with("mcp_response", response)),
            ),
            Err(reason) => Err(ClaudeError::protocol_with("MCP server error: ", reason.as_str())),
        }
    }
}

} // verus!
