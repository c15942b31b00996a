//! Talking to the compositor: what can go wrong, and when to stop waiting.
use crate::outside;
use crate::outside::debug_string;
use vstd::prelude::*;

verus! {

/// What went wrong between the program and the compositor.
#[derive(Debug, PartialEq, Eq)]
#[allow(inconsistent_fields)]
pub enum NiriError {
    MissingSocket,
    Connect { path: String, message: String },
    Io(String),
    Json(String),
    Rejected(String),
    Unexpected(String),
    IncompleteInitialState,
    EventStreamClosed,
    StateTimeout,
    MissingOutput(String),
    NoOutput,
    NoEmptyWorkspace(String),
    WorkspaceDidNotConverge(String),
}

#[verifier::ext_equal]
#[allow(inconsistent_fields)]
pub enum NiriErrorView {
    MissingSocket,
    Connect { path: Seq<char>, message: Seq<char> },
    Io(Seq<char>),
    Json(Seq<char>),
    Rejected(Seq<char>),
    Unexpected(Seq<char>),
    IncompleteInitialState,
    EventStreamClosed,
    StateTimeout,
    MissingOutput(Seq<char>),
    NoOutput,
    NoEmptyWorkspace(Seq<char>),
    WorkspaceDidNotConverge(Seq<char>),
}

impl View for NiriError {
    type V = NiriErrorView;

    open spec fn view(&self) -> NiriErrorView {
        match *self {
            NiriError::MissingSocket => NiriErrorView::MissingSocket,
            NiriError::Connect { path, message } => NiriErrorView::Connect {
                path: path@,
                message: message@,
            },
            NiriError::Io(s) => NiriErrorView::Io(s@),
            NiriError::Json(s) => NiriErrorView::Json(s@),
            NiriError::Rejected(s) => NiriErrorView::Rejected(s@),
            NiriError::Unexpected(s) => NiriErrorView::Unexpected(s@),
            NiriError::IncompleteInitialState => NiriErrorView::IncompleteInitialState,
            NiriError::EventStreamClosed => NiriErrorView::EventStreamClosed,
            NiriError::StateTimeout => NiriErrorView::StateTimeout,
            NiriError::MissingOutput(s) => NiriErrorView::MissingOutput(s@),
            NiriError::NoOutput => NiriErrorView::NoOutput,
            NiriError::NoEmptyWorkspace(s) => NiriErrorView::NoEmptyWorkspace(s@),
            NiriError::WorkspaceDidNotConverge(s) => NiriErrorView::WorkspaceDidNotConverge(s@),
        }
    }
}

/// The message of an error.
pub open spec fn niri_error_text(e: NiriErrorView) -> Seq<char> {
    match e {
        NiriErrorView::MissingSocket =>
        "NIRI_SOCKET is not set; run inside a Niri session or pass --socket"@,
        NiriErrorView::Connect { path, message } => "could not connect to Niri socket "@ + path
            + ": "@ + message,
        NiriErrorView::Io(s) => "Niri IPC I/O failed: "@ + s,
        NiriErrorView::Json(s) => "invalid JSON from Niri: "@ + s,
        NiriErrorView::Rejected(s) => "Niri rejected request: "@ + s,
        NiriErrorView::Unexpected(s) => "unexpected Niri response: "@ + s,
        NiriErrorView::IncompleteInitialState =>
        "event stream ended before initial window/workspace state arrived"@,
        NiriErrorView::EventStreamClosed =>
        "Niri EventStream disconnected while waiting for state convergence"@,
        NiriErrorView::StateTimeout => "timed out waiting for Niri state to change"@,
        NiriErrorView::MissingOutput(name) => "requested output "@ + outside::debug_text(name)
            + " is not connected"@,
        NiriErrorView::NoOutput => "could not determine a focused/connected output"@,
        NiriErrorView::NoEmptyWorkspace(output) => "could not find an empty workspace on output "@
            + outside::debug_text(output),
        NiriErrorView::WorkspaceDidNotConverge(what) => "workspace operation did not converge: "@
            + what,
    }
}

fn prefixed(label: &str, rest: &str) -> (out: String)
    ensures
        out@ == label@ + rest@,
{
    let mut out: String = label.to_owned();
    out.append(rest);
    out
}

impl NiriError {
    /// The message for people.
    pub fn text(&self) -> (out: String)
        ensures
            out@ == niri_error_text(self@),
    {
        match self {
            NiriError::MissingSocket =>
            "NIRI_SOCKET is not set; run inside a Niri session or pass --socket".to_owned(),
            NiriError::Connect { path, message } => {
                let mut out: String = "could not connect to Niri socket ".to_owned();
                out.append(path.as_str());
                out.append(": ");
                out.append(message.as_str());
                out
            },
            NiriError::Io(s) => prefixed("Niri IPC I/O failed: ", s.as_str()),
            NiriError::Json(s) => prefixed("invalid JSON from Niri: ", s.as_str()),
            NiriError::Rejected(s) => prefixed("Niri rejected request: ", s.as_str()),
            NiriError::Unexpected(s) => prefixed("unexpected Niri response: ", s.as_str()),
            NiriError::IncompleteInitialState =>
            "event stream ended before initial window/workspace state arrived".to_owned(),
            NiriError::EventStreamClosed =>
            "Niri EventStream disconnected while waiting for state convergence".to_owned(),
            NiriError::StateTimeout => "timed out waiting for Niri state to change".to_owned(),
            NiriError::MissingOutput(name) => {
                let mut out: String = "requested output ".to_owned();
                out.append(debug_string(name.as_str()).as_str());
                out.append(" is not connected");
                out
            },
            NiriError::NoOutput => "could not determine a focused/connected output".to_owned(),
            NiriError::NoEmptyWorkspace(output) => prefixed(
                "could not find an empty workspace on output ",
                debug_string(output.as_str()).as_str(),
            ),
            NiriError::WorkspaceDidNotConverge(what) => prefixed(
                "workspace operation did not converge: ",
                what.as_str(),
            ),
        }
    }
}

// Waiting

/// What is done next while something is waited for.
#[derive(Debug, Clone, Copy, PartialEq, Eq, Structural)]
pub enum WaitStep {
    /// It has come about.
    Done,
    /// It cannot come about any more: no more changes will be seen.
    Closed,
    /// Something changed meanwhile: look at once.
    Again,
    /// Wait for a change, as long as there is time.
    Wait,
}

/// What is done next while a change after the version `before` is waited for. A
/// change that has come counts even where no other will.
pub fn change_step(version: u64, before: u64, closed: bool) -> (out: WaitStep)
    ensures
        out == if version > before {
            WaitStep::Done
        } else if closed {
            WaitStep::Closed
        } else {
            WaitStep::Wait
        },
{
    if version > before {
        WaitStep::Done
    } else if closed {
        WaitStep::Closed
    } else {
        WaitStep::Wait
    }
}

/// What is done next while a condition is waited for. `changed` says that there
/// was a change since the condition was looked at.
pub fn until_step(holds: bool, changed: bool, closed: bool) -> (out: WaitStep)
    ensures
        out == if closed {
            WaitStep::Closed
        } else if holds {
            WaitStep::Done
        } else if changed {
            WaitStep::Again
        } else {
            WaitStep::Wait
        },
{
    if closed {
        WaitStep::Closed
    } else if holds {
        WaitStep::Done
    } else if changed {
        WaitStep::Again
    } else {
        WaitStep::Wait
    }
}

} // verus!
