//! The actions of the control protocol, and the model of a query's state and decisions.

use crate::encode;
use crate::envelope;
use crate::envelope::{
    IncomingControlRequest, IncomingControlRequestView, RoutedControlResponse,
    RoutedControlResponseView,
};
use crate::errors::{ClaudeError, ClaudeErrorView, RoutedSendFailure, RoutedSendFailureView};
use crate::hooks;
use crate::hooks::{EventHooksView, HookTableView};
use crate::ident;
use crate::json::{Json, JsonView};
use crate::model;
use crate::permission::PermissionMode;
use crate::table;
use vstd::prelude::*;

verus! {

/// What a query holds.
pub struct QueryView {
    pub hooks: HookTableView,
    pub servers: Map<Seq<char>, u64>,
    pub can_use_tool: Option<u64>,
    pub reader_can_use_tool: Option<u64>,
    pub request_counter: u64,
    pub pending: Map<Seq<char>, u64>,
    pub started: bool,
    pub initialization: Option<JsonView>,
    pub reader_exited: bool,
}

/// A control request that is registered and ready to be written.
#[derive(Debug)]
pub struct OutgoingRequest {
    /// The handle of the waiter, by which the response is delivered.
    pub waiter: u64,
    pub request_id: String,
    /// The text to write to the transport.
    pub text: String,
}

/// What an [`OutgoingRequest`] says.
pub struct OutgoingRequestView {
    pub waiter: u64,
    pub request_id: Seq<char>,
    pub text: Seq<char>,
}

impl View for OutgoingRequest {
    type V = OutgoingRequestView;

    open spec fn view(&self) -> OutgoingRequestView {
        OutgoingRequestView {
            waiter: self.waiter,
            request_id: self.request_id@,
            text: self.text@,
        }
    }
}

/// What became of a control request that was registered.
#[derive(Debug)]
pub enum SendEvent {
    /// Writing it to the transport failed.
    WriteFailed(ClaudeError),
    /// Its response was delivered.
    Answered(RoutedControlResponse),
    /// Its waiter was released without an answer.
    Released,
}

/// What the reader has to do with a message.
#[derive(Debug)]
pub enum RouteAction {
    /// Hand the response to the waiter.
    Deliver { waiter: u64, response: RoutedControlResponse },
    /// Answer the peer's control request.
    Handle(IncomingControlRequest),
    /// Pass the message on to the stream of messages.
    Forward(Json),
    /// Nothing.
    Ignore,
}

/// What a [`RouteAction`] says.
pub enum RouteActionView {
    Deliver { waiter: u64, response: RoutedControlResponseView },
    Handle(IncomingControlRequestView),
    Forward(JsonView),
    Ignore,
}

impl View for RouteAction {
    type V = RouteActionView;

    open spec fn view(&self) -> RouteActionView {
        match *self {
            RouteAction::Deliver { waiter, response } => RouteActionView::Deliver {
                waiter,
                response: response@,
            },
            RouteAction::Handle(request) => RouteActionView::Handle(request@),
            RouteAction::Forward(message) => RouteActionView::Forward(message@),
            RouteAction::Ignore => RouteActionView::Ignore,
        }
    }
}

/// A question to the tool permission callback.
#[derive(Debug)]
pub struct PermissionCall {
    pub request_id: String,
    pub callback: u64,
    pub tool_name: String,
    pub input: Json,
    pub suggestions: Option<Json>,
}

/// A call of a hook callback.
#[derive(Debug)]
pub struct HookCall {
    pub request_id: String,
    pub callback: u64,
    pub input: Json,
    pub tool_use_id: Option<String>,
}

/// A message for a tool server.
#[derive(Debug)]
pub struct McpCall {
    pub request_id: String,
    pub server: u64,
    pub message: Json,
}

/// What a control request of the peer asks for.
#[derive(Debug)]
pub enum ControlAction {
    AskPermission(PermissionCall),
    RunHook(HookCall),
    CallMcpServer(McpCall),
}

/// What a [`ControlAction`] says.
pub enum ControlActionView {
    AskPermission {
        request_id: Seq<char>,
        callback: u64,
        tool_name: Seq<char>,
        input: JsonView,
        suggestions: Option<JsonView>,
    },
    RunHook {
        request_id: Seq<char>,
        callback: u64,
        input: JsonView,
        tool_use_id: Option<Seq<char>>,
    },
    CallMcpServer { request_id: Seq<char>, server: u64, message: JsonView },
}

impl View for ControlAction {
    type V = ControlActionView;

    open spec fn view(&self) -> ControlActionView {
        match *self {
            ControlAction::AskPermission(call) => ControlActionView::AskPermission {
                request_id: call.request_id@,
                callback: call.callback,
                tool_name: call.tool_name@,
                input: call.input@,
                suggestions: model::option_view(call.suggestions),
            },
            ControlAction::RunHook(call) => ControlActionView::RunHook {
                request_id: call.request_id@,
                callback: call.callback,
                input: call.input@,
                tool_use_id: model::option_view(call.tool_use_id),
            },
            ControlAction::CallMcpServer(call) => ControlActionView::CallMcpServer {
                request_id: call.request_id@,
                server: call.server,
                message: call.message@,
            },
        }
    }
}

impl ControlActionView {
    /// The identifier of the request that asked for the action.
    pub open spec fn request_id(self) -> Seq<char> {
        match self {
            ControlActionView::AskPermission { request_id, .. } => request_id,
            ControlActionView::RunHook { request_id, .. } => request_id,
            ControlActionView::CallMcpServer { request_id, .. } => request_id,
        }
    }
}

/// What became of a hook call.
#[derive(Debug)]
pub enum HookOutcome {
    /// The input was none that the callback takes, for the given reason.
    InputRejected(String),
    /// What the callback returned could not be written as JSON, for the given reason.
    OutputRejected(String),
    /// What the callback returned.
    Returned(Json),
}

impl QueryView {
    /// A query to which nothing has happened.
    pub open spec fn fresh() -> QueryView {
        QueryView {
            hooks: HookTableView { entries: Map::empty(), next: 0 },
            servers: Map::empty(),
            can_use_tool: None,
            reader_can_use_tool: None,
            request_counter: 0,
            pending: Map::empty(),
            started: false,
            initialization: None,
            reader_exited: false,
        }
    }

    /// What always holds of a query: nothing waits once the reader has exited, and every waiter is
    /// entered under the identifier of its own request.
    pub open spec fn wf(self) -> bool {
        &&& self.reader_exited ==> self.pending == Map::<Seq<char>, u64>::empty()
        &&& forall|id: Seq<char>| #[trigger]
            self.pending.contains_key(id) ==> names_waiter(id, self.pending[id])
    }

    /// Whether the waiters that are entered have numbers below the counter, each its own.
    pub open spec fn waiters_distinct(self) -> bool {
        &&& forall|id: Seq<char>| #[trigger]
            self.pending.contains_key(id) ==> self.pending[id] < self.request_counter
        &&& forall|one: Seq<char>, other: Seq<char>|
            #![trigger self.pending.contains_key(one), self.pending.contains_key(other)]
            self.pending.contains_key(one) && self.pending.contains_key(other) && one != other
                ==> self.pending[one] != self.pending[other]
    }

    /// The state and the outcome after a control request is registered with the token.
    ///
    /// Once the reader has exited nothing would ever answer the request, so it is withdrawn.
    pub open spec fn register(
        self,
        request: JsonView,
        token: Seq<char>,
    ) -> (QueryView, Result<OutgoingRequestView, RoutedSendFailureView>) {
        let waiter = self.request_counter;
        let request_id = ident::request_id(waiter, token);
        let counter = hooks::counted(waiter, 1);
        if self.reader_exited {
            (
                QueryView {
                    request_counter: counter,
                    pending: self.pending.remove(request_id),
                    ..self
                },
                Err(RoutedSendFailureView::NoAcknowledgement),
            )
        } else {
            (
                QueryView {
                    request_counter: counter,
                    pending: self.pending.insert(request_id, waiter),
                    ..self
                },
                Ok(
                    OutgoingRequestView {
                        waiter,
                        request_id,
                        text: encode::json_text(
                            envelope::control_request_message(request_id, request),
                        ),
                    },
                ),
            )
        }
    }

    /// Whether `after` and `result` can come of sending the request: it is registered with the
    /// token of some UUID.
    pub open spec fn sends(
        self,
        request: JsonView,
        after: QueryView,
        result: Result<OutgoingRequestView, RoutedSendFailureView>,
    ) -> bool {
        exists|token: Seq<char>|
            ident::is_simple_uuid(token) && (after, result) == #[trigger] self.register(
                request,
                token,
            )
    }

    /// The state after the initialization ended: the first answer stays.
    pub open spec fn initialized(
        self,
        outcome: Result<RoutedControlResponseView, RoutedSendFailureView>,
    ) -> QueryView {
        match (self.initialization, outcome) {
            (None, Ok(routed)) => QueryView { initialization: Some(routed.data), ..self },
            _ => self,
        }
    }

    /// The state and the action after the reader received a message.
    pub open spec fn route(self, message: JsonView) -> (QueryView, RouteActionView) {
        let kind = message.text_member("type"@);
        if kind == Some("control_response"@) {
            match envelope::control_response_of(message) {
                Some(response) if self.pending.contains_key(response.request_id) => (
                    QueryView { pending: self.pending.remove(response.request_id), ..self },
                    RouteActionView::Deliver {
                        waiter: self.pending[response.request_id],
                        response: response.response,
                    },
                ),
                _ => (self, RouteActionView::Ignore),
            }
        } else if kind == Some("control_request"@) {
            match envelope::control_request_of(message) {
                Some(request) => (self, RouteActionView::Handle(request)),
                None => (self, RouteActionView::Ignore),
            }
        } else {
            (self, RouteActionView::Forward(message))
        }
    }

    /// The state after the reader exited: every waiter is released.
    pub open spec fn exit(self) -> QueryView {
        QueryView { pending: Map::empty(), reader_exited: true, ..self }
    }

    /// What a control request of the peer asks for, or why it is refused.
    pub open spec fn control_action(
        self,
        request: IncomingControlRequestView,
    ) -> Result<ControlActionView, ClaudeErrorView> {
        match request.request.text_member("subtype"@) {
            None => Err(ClaudeErrorView::ControlProtocol("Missing subtype"@)),
            Some(subtype) => if subtype == "can_use_tool"@ {
                self.permission_call(request)
            } else if subtype == "hook_callback"@ {
                self.hook_call(request)
            } else if subtype == "mcp_message"@ {
                self.mcp_call(request)
            } else {
                Err(
                    ClaudeErrorView::ControlProtocol(
                        "Unsupported control request subtype: "@ + subtype,
                    ),
                )
            },
        }
    }

    /// The question that a `can_use_tool` request asks.
    pub open spec fn permission_call(
        self,
        request: IncomingControlRequestView,
    ) -> Result<ControlActionView, ClaudeErrorView> {
        match (self.reader_can_use_tool, request.request.text_member("tool_name"@)) {
            (None, _) => Err(
                ClaudeErrorView::ControlProtocol("can_use_tool callback is not provided"@),
            ),
            (Some(_), None) => Err(ClaudeErrorView::ControlProtocol("Missing tool_name"@)),
            (Some(callback), Some(tool_name)) => Ok(
                ControlActionView::AskPermission {
                    request_id: request.request_id,
                    callback,
                    tool_name,
                    input: input_of(request.request),
                    suggestions: request.request.member("permission_suggestions"@),
                },
            ),
        }
    }

    /// The callback that a `hook_callback` request invokes.
    pub open spec fn hook_call(
        self,
        request: IncomingControlRequestView,
    ) -> Result<ControlActionView, ClaudeErrorView> {
        match request.request.text_member("callback_id"@) {
            None => Err(ClaudeErrorView::ControlProtocol("Missing callback_id"@)),
            Some(id) => match table::entry_of(self.hooks.entries, id) {
                None => Err(ClaudeErrorView::ControlProtocol("Hook callback not found: "@ + id)),
                Some(callback) => Ok(
                    ControlActionView::RunHook {
                        request_id: request.request_id,
                        callback,
                        input: input_of(request.request),
                        tool_use_id: request.request.text_member("tool_use_id"@),
                    },
                ),
            },
        }
    }

    /// The server that an `mcp_message` request is for.
    pub open spec fn mcp_call(
        self,
        request: IncomingControlRequestView,
    ) -> Result<ControlActionView, ClaudeErrorView> {
        match (request.request.text_member("server_name"@), request.request.member("message"@)) {
            (None, _) => Err(
                ClaudeErrorView::ControlProtocol("Missing server_name for mcp_message"@),
            ),
            (Some(_), None) => Err(
                ClaudeErrorView::ControlProtocol("Missing message for mcp_message"@),
            ),
            (Some(name), Some(message)) => match table::entry_of(self.servers, name) {
                None => Err(ClaudeErrorView::ControlProtocol("SDK MCP server not found: "@ + name)),
                Some(server) => Ok(
                    ControlActionView::CallMcpServer {
                        request_id: request.request_id,
                        server,
                        message,
                    },
                ),
            },
        }
    }
}

/// Something that happens to a query.
pub enum QueryEvent {
    SetServers(Seq<(String, u64)>),
    SetCanUseTool(Option<u64>),
    Start,
    /// The callbacks of an initialization are entered.
    EnterHooks(Seq<EventHooksView>),
    /// A control request is registered with the token.
    Send { request: JsonView, token: Seq<char> },
    /// The reader receives a message.
    Receive(JsonView),
    /// An initialization ends.
    EndInitialization(Result<RoutedControlResponseView, RoutedSendFailureView>),
    ReaderExit,
}

impl QueryView {
    /// The state after the event.
    pub open spec fn after(self, event: QueryEvent) -> QueryView {
        match event {
            QueryEvent::SetServers(servers) => QueryView { servers: server_table(servers), ..self },
            QueryEvent::SetCanUseTool(callback) => QueryView { can_use_tool: callback, ..self },
            QueryEvent::Start => QueryView {
                started: true,
                reader_can_use_tool: self.can_use_tool,
                ..self
            },
            QueryEvent::EnterHooks(events) => QueryView {
                hooks: self.hooks.enter(hooks::events_hooks(events)),
                ..self
            },
            QueryEvent::Send { request, token } => self.register(request, token).0,
            QueryEvent::Receive(message) => self.route(message).0,
            QueryEvent::EndInitialization(outcome) => self.initialized(outcome),
            QueryEvent::ReaderExit => self.exit(),
        }
    }
}

/// The state after the events in order.
pub open spec fn history(query: QueryView, events: Seq<QueryEvent>) -> QueryView
    decreases events.len(),
{
    if events.len() == 0 {
        query
    } else {
        history(query, events.drop_last()).after(events.last())
    }
}

/// How many callbacks the events enter.
pub open spec fn hooks_entered(events: Seq<QueryEvent>) -> nat
    decreases events.len(),
{
    if events.len() == 0 {
        0
    } else {
        hooks_entered(events.drop_last()) + match events.last() {
            QueryEvent::EnterHooks(entered) => hooks::events_hooks(entered).len(),
            _ => 0,
        }
    }
}

/// How many control requests the events begin, whatever becomes of them.
pub open spec fn requests_begun(events: Seq<QueryEvent>) -> nat
    decreases events.len(),
{
    if events.len() == 0 {
        0
    } else {
        requests_begun(events.drop_last()) + match events.last() {
            QueryEvent::Send { .. } => 1nat,
            _ => 0nat,
        }
    }
}

/// The identifier under which the request that event `i` begins is registered.
pub open spec fn request_id_at(query: QueryView, events: Seq<QueryEvent>, i: int) -> Seq<char> {
    ident::request_id(history(query, events.take(i)).request_counter, events[i]->token)
}

/// The identifiers that the events hand out to callbacks, in order.
pub open spec fn hook_ids_handed_out(query: QueryView, events: Seq<QueryEvent>) -> Seq<Seq<char>>
    decreases events.len(),
{
    if events.len() == 0 {
        Seq::empty()
    } else {
        let before = history(query, events.drop_last());
        hook_ids_handed_out(query, events.drop_last()) + match events.last() {
            QueryEvent::EnterHooks(entered) => Seq::new(
                hooks::events_hooks(entered).len(),
                |k: int| ident::hook_id(hooks::counted(before.hooks.next, k as nat)),
            ),
            _ => Seq::empty(),
        }
    }
}

/// Whether a message is the response to the request with the identifier.
pub open spec fn answers(message: JsonView, id: Seq<char>) -> bool {
    &&& message.text_member("type"@) == Some("control_response"@)
    &&& envelope::control_response_of(message) matches Some(response)
    &&& response.request_id == id
}

/// Whether an event ends the wait of the request with the identifier.
pub open spec fn ends_wait(event: QueryEvent, id: Seq<char>) -> bool {
    match event {
        QueryEvent::Receive(message) => answers(message, id),
        QueryEvent::ReaderExit => true,
        _ => false,
    }
}

/// Whether an identifier is one of the request whose waiter has the handle.
pub open spec fn names_waiter(id: Seq<char>, waiter: u64) -> bool {
    exists|token: Seq<char>| id == #[trigger] ident::request_id(waiter, token)
}

/// Whether a message belongs to the control protocol.
pub open spec fn is_control(message: JsonView) -> bool {
    ||| message.text_member("type"@) == Some("control_response"@)
    ||| message.text_member("type"@) == Some("control_request"@)
}

/// The state and the actions after the reader received the messages in order.
pub open spec fn run(query: QueryView, messages: Seq<JsonView>) -> (
    QueryView,
    Seq<RouteActionView>,
)
    decreases messages.len(),
{
    if messages.len() == 0 {
        (query, Seq::empty())
    } else {
        let (before, actions) = run(query, messages.drop_last());
        let (after, action) = before.route(messages.last());
        (after, actions.push(action))
    }
}

/// The messages that actions pass on to the stream.
pub open spec fn forwarded(actions: Seq<RouteActionView>) -> Seq<JsonView>
    decreases actions.len(),
{
    if actions.len() == 0 {
        Seq::empty()
    } else {
        match actions.last() {
            RouteActionView::Forward(message) => forwarded(actions.drop_last()).push(message),
            _ => forwarded(actions.drop_last()),
        }
    }
}

/// The input that a control request carries; an empty object where it carries none.
pub open spec fn input_of(request: JsonView) -> JsonView {
    match request.member("input"@) {
        Some(input) => input,
        None => JsonView::object(),
    }
}

/// The messages that end the stream: the error that ended it, if any, and the end itself.
pub open spec fn sentinels(error: Option<Seq<char>>) -> Seq<JsonView> {
    let end = JsonView::object().with("type"@, JsonView::String("end"@));
    match error {
        Some(text) => seq![
            JsonView::object()
                .with("type"@, JsonView::String("error"@))
                .with("error"@, JsonView::String(text)),
            end,
        ],
        None => seq![end],
    }
}

/// The table of servers that a list of named servers spells out: of two with one name the later
/// counts.
pub open spec fn server_table(servers: Seq<(String, u64)>) -> Map<Seq<char>, u64>
    decreases servers.len(),
{
    if servers.len() == 0 {
        Map::empty()
    } else {
        server_table(servers.drop_last()).insert(servers.last().0@, servers.last().1)
    }
}

/// The request that announces the hooks.
pub open spec fn initialize_request(events: Seq<EventHooksView>, first: u64) -> JsonView {
    JsonView::object()
        .with("subtype"@, JsonView::String("initialize"@))
        .with(
            "hooks"@,
            if events.len() == 0 {
                JsonView::Null
            } else {
                hooks::events_config(events, first)
            },
        )
}

/// The request that interrupts.
pub open spec fn interrupt_request() -> JsonView {
    JsonView::object().with("subtype"@, JsonView::String("interrupt"@))
}

/// The request that changes the permission mode.
pub open spec fn mode_request(mode: PermissionMode) -> JsonView {
    JsonView::object()
        .with("subtype"@, JsonView::String("set_permission_mode"@))
        .with("mode"@, JsonView::String(mode.name()))
}

/// The request that changes the model; none stands for the default one.
pub open spec fn model_request(model: Option<Seq<char>>) -> JsonView {
    JsonView::object()
        .with("subtype"@, JsonView::String("set_model"@))
        .with("model"@, JsonView::optional_text(model))
}

/// The request that rewinds tracked files.
pub open spec fn rewind_request(user_message_id: Seq<char>) -> JsonView {
    JsonView::object()
        .with("subtype"@, JsonView::String("rewind_files"@))
        .with("user_message_id"@, JsonView::String(user_message_id))
}

/// How a control request ended.
pub open spec fn settled(event: SendEvent) -> Result<RoutedControlResponse, RoutedSendFailure> {
    match event {
        SendEvent::WriteFailed(error) => Err(RoutedSendFailure::Write(error)),
        SendEvent::Answered(response) => Ok(response),
        SendEvent::Released => Err(RoutedSendFailure::NoAcknowledgement),
    }
}

/// What the end of a control request means to a caller of the generic path: the data of the
/// response, whatever its subtype.
pub open spec fn response_data(
    outcome: Result<RoutedControlResponseView, RoutedSendFailureView>,
) -> Result<JsonView, ClaudeErrorView> {
    match outcome {
        Ok(routed) => Ok(routed.data),
        Err(failure) => Err(failure.error()),
    }
}

/// The payload that reports what became of a hook call.
pub open spec fn hook_payload(outcome: HookOutcome) -> Result<JsonView, ClaudeErrorView> {
    match outcome {
        HookOutcome::InputRejected(reason) => Err(
            ClaudeErrorView::ControlProtocol("Failed to parse hook input: "@ + reason@),
        ),
        HookOutcome::OutputRejected(reason) => Err(
            ClaudeErrorView::ControlProtocol("Failed to serialize hook output: "@ + reason@),
        ),
        HookOutcome::Returned(output) => Ok(output@),
    }
}

/// The payload that reports what a tool server answered.
pub open spec fn mcp_payload(
    answer: Result<JsonView, Seq<char>>,
) -> Result<JsonView, ClaudeErrorView> {
    match answer {
        Ok(response) => Ok(JsonView::object().with("mcp_response"@, response)),
        Err(reason) => Err(ClaudeErrorView::ControlProtocol("MCP server error: "@ + reason)),
    }
}

/// The text that answers a control request, or why none is written.
pub open spec fn reply_text(
    request_id: Seq<char>,
    payload: Result<JsonView, ClaudeErrorView>,
) -> Result<Seq<char>, ClaudeErrorView> {
    match payload {
        Ok(payload) => Ok(encode::json_text(envelope::success_message(request_id, payload))),
        Err(error) => Err(error),
    }
}

} // verus!
