//! The errors of the control protocol.

use vstd::prelude::*;

verus! {

/// A failure that reaches the caller of a query.
#[derive(Debug, Clone)]
pub enum ClaudeError {
    /// The transport failed.
    Transport(String),
    /// The peer, or a callback on its behalf, did not keep to the control protocol.
    ControlProtocol(String),
}

/// What a [`ClaudeError`] says.
pub enum ClaudeErrorView {
    Transport(Seq<char>),
    ControlProtocol(Seq<char>),
}

impl View for ClaudeError {
    type V = ClaudeErrorView;

    open spec fn view(&self) -> ClaudeErrorView {
        match *self {
            ClaudeError::Transport(text) => ClaudeErrorView::Transport(text@),
            ClaudeError::ControlProtocol(text) => ClaudeErrorView::ControlProtocol(text@),
        }
    }
}

impl ClaudeErrorView {
    /// The text that the error carries.
    pub open spec fn text(self) -> Seq<char> {
        match self {
            ClaudeErrorView::Transport(text) => text,
            ClaudeErrorView::ControlProtocol(text) => text,
        }
    }
}

impl ClaudeError {
    /// The text that the error carries.
    pub fn message(&self) -> (r: &str)
        ensures
            r@ == self@.text(),
    {
        match self {
            ClaudeError::Transport(text) => text.as_str(),
            ClaudeError::ControlProtocol(text) => text.as_str(),
        }
    }

    /// A protocol error that says `text`.
    pub fn protocol(text: &str) -> (r: ClaudeError)
        ensures
            r@ == ClaudeErrorView::ControlProtocol(text@),
    {
        ClaudeError::ControlProtocol(text.to_owned())
    }

    /// A protocol error that says `text` and then `detail`.
    pub fn protocol_with(text: &str, detail: &str) -> (r: ClaudeError)
        ensures
            r@ == ClaudeErrorView::ControlProtocol(text@ + detail@),
    {
        ClaudeError::ControlProtocol(text.to_owned().concat(detail))
    }
}

/// Why a control request that was sent produced no correlated response.
///
/// `Write` keeps the transport failure whole; delivery is indeterminate, because the body, the
/// newline and the flush are separately fallible. `NoAcknowledgement` means that the waiter was
/// released without an answer.
#[derive(Debug)]
pub enum RoutedSendFailure {
    Write(ClaudeError),
    NoAcknowledgement,
}

/// What a [`RoutedSendFailure`] says.
pub enum RoutedSendFailureView {
    Write(ClaudeErrorView),
    NoAcknowledgement,
}

impl View for RoutedSendFailure {
    type V = RoutedSendFailureView;

    open spec fn view(&self) -> RoutedSendFailureView {
        match *self {
            RoutedSendFailure::Write(error) => RoutedSendFailureView::Write(error@),
            RoutedSendFailure::NoAcknowledgement => RoutedSendFailureView::NoAcknowledgement,
        }
    }
}

impl RoutedSendFailureView {
    /// The error that a caller of the generic path sees.
    pub open spec fn error(self) -> ClaudeErrorView {
        match self {
            RoutedSendFailureView::Write(error) => error,
            RoutedSendFailureView::NoAcknowledgement => ClaudeErrorView::ControlProtocol(
                "Control request response channel closed"@,
            ),
        }
    }
}

impl RoutedSendFailure {
    /// The error that a caller of the generic path sees.
    pub fn into_error(self) -> (r: ClaudeError)
        ensures
            r@ == self@.error(),
    {
        match self {
            RoutedSendFailure::Write(error) => error,
            RoutedSendFailure::NoAcknowledgement => ClaudeError::protocol(
                "Control request response channel closed",
            ),
        }
    }
}

} // verus!
