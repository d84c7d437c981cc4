//! What the supervisor tells the outside: the events of the status sink, and
//! the actions that the caller has to carry out.
//!
//! The library words nothing for the user. A text is named by a variant, and
//! the caller renders it.

use vstd::prelude::*;
use crate::address::Ipv4;

verus! {

/// The text on the start button: what the launch is doing, or what the button
/// would do.
#[derive(Clone, Copy, Debug, PartialEq, Eq, Structural)]
pub enum StatusText {
    /// The needed files are being checked.
    CheckingFiles,
    /// The sync data of the credential is being fetched.
    UpdatingSyncData,
    /// The credential is being fetched.
    FetchingCredential,
    /// The alternate driver is being fetched.
    FetchingAlternateDriver,
    /// The installer of the primary driver is being fetched.
    FetchingDriverInstaller,
    /// The primary driver is being installed.
    InstallingDriver,
    /// The manifest is being consulted.
    CheckingForUpdate,
    /// A newer client binary is being fetched.
    Updating,
    /// The client binary is being fetched for the first time.
    Installing,
    /// The client is being started.
    Launching,
    /// The client is being stopped.
    Stopping,
    /// Nothing runs: the button starts the client.
    Start,
    /// The client runs: the button stops it.
    Stop,
}

/// The part of a launch in which an error arose.
#[derive(Clone, Copy, Debug, PartialEq, Eq, Structural)]
pub enum Stage {
    Layout,
    Credential,
    Driver,
    Update,
    Spawn,
    Handoff,
}

/// The kind of an error.
#[derive(Clone, Copy, Debug, PartialEq, Eq, Structural)]
pub enum ErrorKind {
    /// A directory or file could not be created, read or written.
    Io,
    /// A fetch failed, was answered without success, or with no text.
    Network,
    /// The driver installer did not end with success.
    Install,
    /// The expected signal could not be had from the child's output.
    Protocol,
}

/// An error that aborts a launch before any child is started.
#[derive(Clone, Copy, Debug, PartialEq, Eq, Structural)]
pub struct LaunchError {
    pub kind: ErrorKind,
    pub stage: Stage,
}

/// A warning shown to the user.
#[derive(Clone, Copy, Debug, PartialEq, Eq, Structural)]
pub enum Warning {
    /// The credential has expired.
    CredentialExpired,
    /// The client could not open its listener.
    ListenFailure,
    /// The client could not get a network device from the driver.
    DriverAcquisitionFailure,
    /// The client ended unexpectedly and will be restarted.
    Crashed,
    /// No token was given: the session is anonymous and limited in time.
    AnonymousMode,
    /// The launch was aborted by an error.
    LaunchFailed(LaunchError),
}

/// An event of the status sink.
#[derive(Clone, Debug, PartialEq, Eq)]
pub enum StatusEvent {
    SetStatusText(StatusText),
    /// Shows a warning, or clears it with `None`.
    SetWarning(Option<Warning>),
    /// Shows the assigned address, or clears it with `None`.
    SetIp(Option<Ipv4>),
    /// Shows the end of the credential's validity, or clears it with no text.
    SetValid(Vec<u8>),
    SetDisabled(bool),
    RequestRestart,
    Joined,
    Crashed,
    Stopped,
    Launch,
}

/// A status event as a mathematical value.
pub enum StatusEventView {
    SetStatusText(StatusText),
    SetWarning(Option<Warning>),
    SetIp(Option<Ipv4>),
    SetValid(Seq<u8>),
    SetDisabled(bool),
    RequestRestart,
    Joined,
    Crashed,
    Stopped,
    Launch,
}

impl DeepView for StatusEvent {
    type V = StatusEventView;

    open spec fn deep_view(&self) -> StatusEventView {
        match self {
            StatusEvent::SetStatusText(text) => StatusEventView::SetStatusText(*text),
            StatusEvent::SetWarning(warning) => StatusEventView::SetWarning(*warning),
            StatusEvent::SetIp(ip) => StatusEventView::SetIp(*ip),
            StatusEvent::SetValid(until) => StatusEventView::SetValid(until@),
            StatusEvent::SetDisabled(disabled) => StatusEventView::SetDisabled(*disabled),
            StatusEvent::RequestRestart => StatusEventView::RequestRestart,
            StatusEvent::Joined => StatusEventView::Joined,
            StatusEvent::Crashed => StatusEventView::Crashed,
            StatusEvent::Stopped => StatusEventView::Stopped,
            StatusEvent::Launch => StatusEventView::Launch,
        }
    }
}

/// Something the caller has to carry out, in the order given.
#[derive(Clone, Debug, PartialEq, Eq)]
pub enum Action {
    /// Create the session log, empty.
    OpenLog,
    /// Append the line just read to the session log, as it is.
    AppendLog,
    /// Fulfil the handoff to the launching call: with the assigned address, or
    /// with `None` for failure.
    Deliver(Option<Ipv4>),
    /// Send an event to the status sink.
    Emit(StatusEvent),
    /// Wait for the given number of seconds.
    Pause(u64),
    /// Terminate the process with the given id.
    Terminate(u32),
}

/// An action as a mathematical value.
pub enum ActionView {
    OpenLog,
    AppendLog,
    Deliver(Option<Ipv4>),
    Emit(StatusEventView),
    Pause(u64),
    Terminate(u32),
}

impl DeepView for Action {
    type V = ActionView;

    open spec fn deep_view(&self) -> ActionView {
        match self {
            Action::OpenLog => ActionView::OpenLog,
            Action::AppendLog => ActionView::AppendLog,
            Action::Deliver(outcome) => ActionView::Deliver(*outcome),
            Action::Emit(event) => ActionView::Emit(event.deep_view()),
            Action::Pause(seconds) => ActionView::Pause(*seconds),
            Action::Terminate(pid) => ActionView::Terminate(*pid),
        }
    }
}

/// The action that sets the text of the start button.
pub open spec fn say(text: StatusText) -> ActionView {
    ActionView::Emit(StatusEventView::SetStatusText(text))
}

/// The action that shows a warning, or clears it.
pub open spec fn warn(warning: Option<Warning>) -> ActionView {
    ActionView::Emit(StatusEventView::SetWarning(warning))
}

/// The actions that terminate the given processes, one for each, in order.
pub open spec fn terminations(pids: Seq<u32>) -> Seq<ActionView> {
    Seq::new(pids.len(), |i: int| ActionView::Terminate(pids[i]))
}

} // verus!
