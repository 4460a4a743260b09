//! Outcomes of an interrupt request.
//!
//! An interrupt is acknowledged when the request is *accepted*. Acceptance is not a stop: a
//! request sent during an active turn and one sent while nothing is running receive the same
//! success envelope. Nothing in this module reports that a turn stopped, or tells idle from
//! active work.

use crate::envelope::{RoutedControlResponse, RoutedControlResponseView};
use crate::errors::{ClaudeError, ClaudeErrorView, RoutedSendFailure, RoutedSendFailureView};
use crate::json;
use crate::json::{Json, JsonView};
use crate::model;
use vstd::prelude::*;

verus! {

/// The peer accepted an interrupt request.
///
/// This says nothing about whether a turn was running or whether one stopped.
#[derive(Debug, Clone, PartialEq, Eq)]
pub struct InterruptRequestAccepted {
    /// UUIDs of covered queued messages that survived the interrupt, when the peer sent a
    /// receipt.
    ///
    /// `None` means that no usable receipt was recovered: the field was absent, null or not an
    /// array of strings. An empty vector means that no survivor was reported.
    pub still_queued: Option<Vec<String>>,
}

/// What an [`InterruptRequestAccepted`] says.
pub struct InterruptRequestAcceptedView {
    pub still_queued: Option<Seq<Seq<char>>>,
}

impl View for InterruptRequestAccepted {
    type V = InterruptRequestAcceptedView;

    open spec fn view(&self) -> InterruptRequestAcceptedView {
        InterruptRequestAcceptedView {
            still_queued: match self.still_queued {
                Some(strings) => Some(model::texts(strings@)),
                None => None,
            },
        }
    }
}

/// Failure of an interrupt request on an existing query.
#[derive(Debug)]
pub enum InterruptQueryError {
    SendFailed { source: ClaudeError },
    ErrorResponse { message: String },
    AcknowledgementUnavailable,
    UnexpectedResponse { subtype: String },
}

/// What an [`InterruptQueryError`] says.
pub enum InterruptQueryErrorView {
    SendFailed { source: ClaudeErrorView },
    ErrorResponse { message: Seq<char> },
    AcknowledgementUnavailable,
    UnexpectedResponse { subtype: Seq<char> },
}

impl View for InterruptQueryError {
    type V = InterruptQueryErrorView;

    open spec fn view(&self) -> InterruptQueryErrorView {
        match *self {
            InterruptQueryError::SendFailed { source } => InterruptQueryErrorView::SendFailed {
                source: source@,
            },
            InterruptQueryError::ErrorResponse { message } => {
                InterruptQueryErrorView::ErrorResponse { message: message@ }
            },
            InterruptQueryError::AcknowledgementUnavailable => {
                InterruptQueryErrorView::AcknowledgementUnavailable
            },
            InterruptQueryError::UnexpectedResponse { subtype } => {
                InterruptQueryErrorView::UnexpectedResponse { subtype: subtype@ }
            },
        }
    }
}

/// An interrupt request produced no acknowledgement of acceptance.
///
/// No variant claims that a turn was or was not stopped.
#[derive(Debug, Clone)]
pub enum InterruptError {
    /// The client held no query, so nothing could be sent.
    NotConnected,
    /// Writing the request to the transport failed. Delivery is indeterminate: a failure can
    /// occur after the framed request has already been written.
    SendFailed {
        /// The transport failure that occurred.
        source: ClaudeError,
    },
    /// The peer answered with a correlated `error` envelope.
    ErrorResponse {
        /// The message carried by the error envelope.
        message: String,
    },
    /// The response reader exited before answering.
    AcknowledgementUnavailable,
    /// A correlated response arrived that could not be interpreted: its subtype was neither
    /// `success` nor `error`, or it was an `error` envelope without a message.
    UnexpectedResponse {
        /// The subtype carried by the unusable response.
        subtype: String,
    },
}

/// Whether every item of an array is a string.
pub open spec fn all_strings(items: Seq<JsonView>) -> bool {
    forall|i: int| 0 <= i < items.len() ==> #[trigger] items[i] is String
}

/// The receipt in a success payload: the texts of the array `/response/still_queued`, in order,
/// when each of its items is a string.
pub open spec fn still_queued_of(data: JsonView) -> Option<Seq<Seq<char>>> {
    match data.nested("response"@, "still_queued"@) {
        Some(JsonView::Array(items)) if all_strings(items) => Some(
            items.map_values(|item: JsonView| item->String_0),
        ),
        _ => None,
    }
}

/// What a correlated response to an interrupt means.
pub open spec fn interrupt_reply(
    routed: RoutedControlResponseView,
) -> Result<InterruptRequestAcceptedView, InterruptQueryErrorView> {
    if routed.subtype == "success"@ {
        Ok(InterruptRequestAcceptedView { still_queued: still_queued_of(routed.data) })
    } else {
        match routed.data.text_member("error"@) {
            Some(message) if routed.subtype == "error"@ => Err(
                InterruptQueryErrorView::ErrorResponse { message },
            ),
            _ => Err(InterruptQueryErrorView::UnexpectedResponse { subtype: routed.subtype }),
        }
    }
}

/// What the end of an interrupt request means.
pub open spec fn interrupt_outcome(
    outcome: Result<RoutedControlResponseView, RoutedSendFailureView>,
) -> Result<InterruptRequestAcceptedView, InterruptQueryErrorView> {
    match outcome {
        Ok(routed) => interrupt_reply(routed),
        Err(RoutedSendFailureView::Write(source)) => Err(
            InterruptQueryErrorView::SendFailed { source },
        ),
        Err(RoutedSendFailureView::NoAcknowledgement) => Err(
            InterruptQueryErrorView::AcknowledgementUnavailable,
        ),
    }
}

/// Reads the optional `still_queued` receipt out of a success payload.
///
/// All or nothing: an array with an item that is no string yields `None`, never a shorter list.
pub fn parse_still_queued(data: &Json) -> (r: Option<Vec<String>>)
    ensures
        still_queued_of(data@) == match r {
            Some(strings) => Some(model::texts(strings@)),
            None => None,
        },
{
    match data.get_nested("response", "still_queued") {
        Some(Json::Array(items)) => {
            let ghost tree = json::array_tree(items@);
            let mut strings: Vec<String> = Vec::new();
            let mut i: usize = 0;
            while i < items.len()
                invariant
                    i <= items.len(),
                    tree == json::array_tree(items@),
                    data@.nested("response"@, "still_queued"@) == Some(JsonView::Array(tree)),
                    strings.len() == i,
                    forall|k: int|
                        0 <= k < i ==> #[trigger] tree[k] == JsonView::String(strings@[k]@),
                decreases items.len() - i,
            {
                assert(tree[i as int] == items@[i as int]@);
                match items[i].as_str() {
                    Some(s) => strings.push(s.to_owned()),
                    None => {
                        return None;
                    },
                }
                i += 1;
            }
            assert(tree.map_values(|item: JsonView| item->String_0) =~= model::texts(strings@));
            Some(strings)
        },
        _ => None,
    }
}

/// Interprets a correlated response to an interrupt.
///
/// The fold is total: a response that cannot be interpreted is reported as unusable rather than
/// as acceptance or as a failure to deliver.
pub fn interpret_interrupt(
    routed: RoutedControlResponse,
) -> (r: Result<InterruptRequestAccepted, InterruptQueryError>)
    ensures
        model::result_view(r) == interrupt_reply(routed@),
{
    if json::same_text(routed.subtype.as_str(), "success") {
        return Ok(InterruptRequestAccepted { still_queued: parse_still_queued(&routed.data) });
    }
    if json::same_text(routed.subtype.as_str(), "error") {
        if let Some(message) = routed.data.get_str("error") {
            return Err(InterruptQueryError::ErrorResponse { message: message.to_owned() });
        }
    }
    Err(InterruptQueryError::UnexpectedResponse { subtype: routed.subtype })
}

/// Interprets the end of an interrupt request.
///
/// `Ok` means that the peer accepted the request. It does not mean that a turn stopped, nor that
/// one was running.
pub fn finish_interrupt(
    outcome: Result<RoutedControlResponse, RoutedSendFailure>,
) -> (r: Result<InterruptRequestAccepted, InterruptQueryError>)
    ensures
        model::result_view(r) == interrupt_outcome(model::result_view(outcome)),
        outcome matches Err(RoutedSendFailure::Write(source)) ==> (r
            == Err::<InterruptRequestAccepted, InterruptQueryError>(
            (InterruptQueryError::SendFailed { source }),
        )),
{
    match outcome {
        Ok(routed) => interpret_interrupt(routed),
        Err(RoutedSendFailure::Write(source)) => Err(InterruptQueryError::SendFailed { source }),
        Err(RoutedSendFailure::NoAcknowledgement) => Err(
            InterruptQueryError::AcknowledgementUnavailable,
        ),
    }
}

/// What an [`InterruptError`] says.
pub enum InterruptErrorView {
    NotConnected,
    Query(InterruptQueryErrorView),
}

impl View for InterruptError {
    type V = InterruptErrorView;

    open spec fn view(&self) -> InterruptErrorView {
        match *self {
            InterruptError::NotConnected => InterruptErrorView::NotConnected,
            InterruptError::SendFailed { source } => InterruptErrorView::Query(
                InterruptQueryErrorView::SendFailed { source: source@ },
            ),
            InterruptError::ErrorResponse { message } => InterruptErrorView::Query(
                InterruptQueryErrorView::ErrorResponse { message: message@ },
            ),
            InterruptError::AcknowledgementUnavailable => InterruptErrorView::Query(
                InterruptQueryErrorView::AcknowledgementUnavailable,
            ),
            InterruptError::UnexpectedResponse { subtype } => InterruptErrorView::Query(
                InterruptQueryErrorView::UnexpectedResponse { subtype: subtype@ },
            ),
        }
    }
}

impl InterruptErrorView {
    /// The error in words. A failed send is described by the bare text that its source carries;
    /// how a caller displays that source on its own is left open.
    pub open spec fn message(self) -> Seq<char> {
        match self {
            InterruptErrorView::NotConnected => "client is not connected"@,
            InterruptErrorView::Query(error) => match error {
                InterruptQueryErrorView::SendFailed { source } => "interrupt send failed: "@
                    + source.text(),
                InterruptQueryErrorView::ErrorResponse { message } => {
                    "interrupt returned an error response: "@ + message
                },
                InterruptQueryErrorView::AcknowledgementUnavailable => {
                    "no acknowledgement was obtained for the interrupt"@
                },
                InterruptQueryErrorView::UnexpectedResponse { subtype } => {
                    "interrupt received an unusable response with subtype "@ + subtype
                },
            },
        }
    }
}

impl InterruptError {
    /// The failure of a query, as the client reports it.
    pub fn from_query(error: InterruptQueryError) -> (r: InterruptError)
        ensures
            r@ == InterruptErrorView::Query(error@),
    {
        match error {
            InterruptQueryError::SendFailed { source } => InterruptError::SendFailed { source },
            InterruptQueryError::ErrorResponse { message } => {
                InterruptError::ErrorResponse { message }
            },
            InterruptQueryError::AcknowledgementUnavailable => {
                InterruptError::AcknowledgementUnavailable
            },
            InterruptQueryError::UnexpectedResponse { subtype } => {
                InterruptError::UnexpectedResponse { subtype }
            },
        }
    }

    /// The error in words. A failed send is described by the bare text that its source carries;
    /// how a caller displays that source on its own is left open.
    pub fn message(&self) -> (r: String)
        ensures
            r@ == self@.message(),
    {
        match self {
            InterruptError::NotConnected => "client is not connected".to_owned(),
            InterruptError::SendFailed { source } => "interrupt send failed: ".to_owned().concat(
                source.message(),
            ),
            InterruptError::ErrorResponse { message } => {
                "interrupt returned an error response: ".to_owned().concat(message.as_str())
            },
            InterruptError::AcknowledgementUnavailable => {
                "no acknowledgement was obtained for the interrupt".to_owned()
            },
            InterruptError::UnexpectedResponse { subtype } => {
                "interrupt received an unusable response with subtype ".to_owned().concat(
                    subtype.as_str(),
                )
            },
        }
    }
}

} // verus!
