//! Permission modes, and decisions on the use of a tool.

use crate::envelope::{RoutedControlResponse, RoutedControlResponseView};
use crate::errors::{ClaudeError, ClaudeErrorView, RoutedSendFailure, RoutedSendFailureView};
use crate::json;
use crate::json::{Json, JsonView};
use crate::model;
use vstd::prelude::*;

verus! {

/// How much the agent may do without asking.
#[derive(Debug, Clone, Copy, PartialEq, Eq)]
pub enum PermissionMode {
    Default,
    AcceptEdits,
    Plan,
    BypassPermissions,
}

impl View for PermissionMode {
    type V = PermissionMode;

    open spec fn view(&self) -> PermissionMode {
        *self
    }
}

impl PermissionMode {
    /// The mode's name on the wire.
    pub open spec fn name(self) -> Seq<char> {
        match self {
            PermissionMode::Default => "default"@,
            PermissionMode::AcceptEdits => "acceptEdits"@,
            PermissionMode::Plan => "plan"@,
            PermissionMode::BypassPermissions => "bypassPermissions"@,
        }
    }

    /// Whether a JSON value spells the mode: its name, or an object whose only member has that
    /// name and is null.
    pub open spec fn is_spelled(self, value: JsonView) -> bool {
        ||| value == JsonView::String(self.name())
        ||| value == JsonView::object().with(self.name(), JsonView::Null)
    }

    /// The mode's name on the wire.
    pub fn as_str(self) -> (r: &'static str)
        ensures
            r@ == self.name(),
    {
        match self {
            PermissionMode::Default => "default",
            PermissionMode::AcceptEdits => "acceptEdits",
            PermissionMode::Plan => "plan",
            PermissionMode::BypassPermissions => "bypassPermissions",
        }
    }

    /// The mode that has the name.
    pub fn from_name(name: &str) -> (r: Option<PermissionMode>)
        ensures
            r == mode_named(name@),
    {
        if json::same_text(name, "default") {
            Some(PermissionMode::Default)
        } else if json::same_text(name, "acceptEdits") {
            Some(PermissionMode::AcceptEdits)
        } else if json::same_text(name, "plan") {
            Some(PermissionMode::Plan)
        } else if json::same_text(name, "bypassPermissions") {
            Some(PermissionMode::BypassPermissions)
        } else {
            None
        }
    }

    /// The mode that a JSON value spells.
    pub fn from_json(value: &Json) -> (r: Option<PermissionMode>)
        ensures
            r == mode_of(value@),
    {
        match value.as_str() {
            Some(name) => PermissionMode::from_name(name),
            None => match value.only_member() {
                Some((name, Json::Null)) => {
                    proof {
                        assert forall|mode: PermissionMode| #[trigger]
                            mode.is_spelled(value@) implies name@ == mode.name() by {
                            assert(value@.member(mode.name()) == Some(JsonView::Null));
                        }
                    }
                    PermissionMode::from_name(name)
                },
                Some((name, other)) => {
                    proof {
                        assert forall|mode: PermissionMode| !#[trigger] mode.is_spelled(value@) by {
                            assert(value@.member(name@) == Some(other@));
                        }
                    }
                    None
                },
                None => None,
            },
        }
    }
}

/// The mode that has the name.
pub open spec fn mode_named(name: Seq<char>) -> Option<PermissionMode> {
    if name == PermissionMode::Default.name() {
        Some(PermissionMode::Default)
    } else if name == PermissionMode::AcceptEdits.name() {
        Some(PermissionMode::AcceptEdits)
    } else if name == PermissionMode::Plan.name() {
        Some(PermissionMode::Plan)
    } else if name == PermissionMode::BypassPermissions.name() {
        Some(PermissionMode::BypassPermissions)
    } else {
        None
    }
}

/// The mode that a JSON value spells.
pub open spec fn mode_of(value: JsonView) -> Option<PermissionMode> {
    if PermissionMode::Default.is_spelled(value) {
        Some(PermissionMode::Default)
    } else if PermissionMode::AcceptEdits.is_spelled(value) {
        Some(PermissionMode::AcceptEdits)
    } else if PermissionMode::Plan.is_spelled(value) {
        Some(PermissionMode::Plan)
    } else if PermissionMode::BypassPermissions.is_spelled(value) {
        Some(PermissionMode::BypassPermissions)
    } else {
        None
    }
}

/// What the reply to a mode change means. `refusal` says why the mode in the reply is none.
pub open spec fn mode_reply(
    data: JsonView,
    refusal: Seq<char>,
) -> Result<PermissionMode, ClaudeErrorView> {
    match (data.text_member("error"@), data.nested("response"@, "mode"@)) {
        (Some(error), _) => Err(ClaudeErrorView::ControlProtocol(error)),
        (None, None) => Err(
            ClaudeErrorView::ControlProtocol("set_permission_mode response missing response.mode"@),
        ),
        (None, Some(value)) => match mode_of(value) {
            Some(mode) => Ok(mode),
            None => Err(
                ClaudeErrorView::ControlProtocol(
                    "set_permission_mode response contained invalid mode: "@ + refusal,
                ),
            ),
        },
    }
}

/// What the end of a mode change means.
pub open spec fn mode_outcome(
    outcome: Result<RoutedControlResponseView, RoutedSendFailureView>,
    refusal: Seq<char>,
) -> Result<PermissionMode, ClaudeErrorView> {
    match outcome {
        Ok(routed) => mode_reply(routed.data, refusal),
        Err(failure) => Err(failure.error()),
    }
}

/// Interprets the end of a mode change: the effective mode that the peer confirmed, or the error
/// with which it rejected the change.
///
/// `refusal` is the reason to give when the reply names no mode.
pub fn finish_set_permission_mode(
    outcome: Result<RoutedControlResponse, RoutedSendFailure>,
    refusal: &str,
) -> (r: Result<PermissionMode, ClaudeError>)
    ensures
        model::result_view(r) == mode_outcome(model::result_view(outcome), refusal@),
{
    let response = match outcome {
        Ok(routed) => routed.data,
        Err(failure) => {
            return Err(failure.into_error());
        },
    };
    if let Some(error) = response.get_str("error") {
        return Err(ClaudeError::protocol(error));
    }
    match response.get_nested("response", "mode") {
        None => Err(ClaudeError::protocol("set_permission_mode response missing response.mode")),
        Some(value) => match PermissionMode::from_json(value) {
            Some(mode) => Ok(mode),
            None => Err(
                ClaudeError::protocol_with(
                    "set_permission_mode response contained invalid mode: ",
                    refusal,
                ),
            ),
        },
    }
}

/// A decision on the use of a tool.
#[derive(Debug)]
pub enum PermissionResult {
    Allow(PermissionResultAllow),
    Deny(PermissionResultDeny),
}

/// The tool may be used.
#[derive(Debug)]
pub struct PermissionResultAllow {
    /// The input to use in place of the one that was asked about.
    pub updated_input: Option<Json>,
    /// The permissions to change, as JSON; `Some(None)` where they could not be written as JSON.
    pub updated_permissions: Option<Option<Json>>,
}

impl Default for PermissionResultAllow {
    /// The tool may be used with the input that was asked about, and no permission changes.
    fn default() -> (r: PermissionResultAllow)
        ensures
            r.updated_input is None,
            r.updated_permissions is None,
    {
        PermissionResultAllow { updated_input: None, updated_permissions: None }
    }
}

/// The tool may not be used.
#[derive(Debug)]
pub struct PermissionResultDeny {
    pub message: String,
    /// Whether the turn is to be interrupted as well.
    pub interrupt: bool,
}

/// What a [`PermissionResult`] says.
pub enum PermissionResultView {
    Allow { updated_input: Option<JsonView>, updated_permissions: Option<Option<JsonView>> },
    Deny { message: Seq<char>, interrupt: bool },
}

impl View for PermissionResult {
    type V = PermissionResultView;

    open spec fn view(&self) -> PermissionResultView {
        match *self {
            PermissionResult::Allow(allow) => PermissionResultView::Allow {
                updated_input: model::option_view(allow.updated_input),
                updated_permissions: match allow.updated_permissions {
                    Some(permissions) => Some(model::option_view(permissions)),
                    None => None,
                },
            },
            PermissionResult::Deny(deny) => PermissionResultView::Deny {
                message: deny.message@,
                interrupt: deny.interrupt,
            },
        }
    }
}

/// The payload that reports a decision. `input` is the input that was asked about.
pub open spec fn permission_payload(result: PermissionResultView, input: JsonView) -> JsonView {
    match result {
        PermissionResultView::Allow { updated_input, updated_permissions } => {
            let allowed = JsonView::object()
                .with("behavior"@, JsonView::String("allow"@))
                .with(
                    "updatedInput"@,
                    match updated_input {
                        Some(updated) => updated,
                        None => input,
                    },
                );
            match updated_permissions {
                Some(Some(permissions)) => allowed.with("updatedPermissions"@, permissions),
                Some(None) => allowed.with(
                    "updatedPermissions"@,
                    JsonView::Array(Seq::empty()),
                ),
                None => allowed,
            }
        },
        PermissionResultView::Deny { message, interrupt } => {
            let denied = JsonView::object()
                .with("behavior"@, JsonView::String("deny"@))
                .with("message"@, JsonView::String(message));
            if interrupt {
                denied.with("interrupt"@, JsonView::Bool(true))
            } else {
                denied
            }
        },
    }
}

/// The payload that reports a decision on the use of a tool with the given input.
pub fn permission_response(result: PermissionResult, input: Json) -> (r: Json)
    ensures
        r@ == permission_payload(result@, input@),
{
    match result {
        PermissionResult::Allow(allow) => {
            let input = match allow.updated_input {
                Some(updated) => updated,
                None => input,
            };
            let allowed = Json::object()
                .with("behavior", Json::text("allow"))
                .with("updatedInput", input);
            match allow.updated_permissions {
                Some(Some(permissions)) => allowed.with("updatedPermissions", permissions),
                Some(None) => {
                    let none: Vec<Json> = Vec::new();
                    assert(json::array_tree(none@) =~= Seq::empty());
                    allowed.with("updatedPermissions", Json::Array(none))
                },
                None => allowed,
            }
        },
        PermissionResult::Deny(deny) => {
            let denied = Json::object()
                .with("behavior", Json::text("deny"))
                .with("message", Json::String(deny.message));
            if deny.interrupt {
                denied.with("interrupt", Json::Bool(true))
            } else {
                denied
            }
        },
    }
}

} // verus!
