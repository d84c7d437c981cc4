//! The supervisor of one launched child, as a state machine.
//!
//! The caller runs the loop: it reads the child's output and waits for its
//! exit, hands each line and each end of stream to the machine, and carries
//! out the actions that the machine answers with. The machine decides: what is
//! delivered through the handoff, and that this happens exactly once; which
//! events the status sink gets; and whether a restart is asked for.

use vstd::prelude::*;
use vstd::slice::slice_to_vec;
use vstd::string::StringSliceAdditionalSpecFns;
use crate::log_line::{event_of, event_view, parse_line, LogEvent, LogEventView};
use crate::launch::push_terminations;
use crate::registry::{stop_hiper_directly, ProcessRegistry, Role};
use crate::status::{terminations, warn, Action, ActionView, StatusEvent, StatusEventView};
use crate::status::Warning;
use crate::text::same_bytes;

verus! {

/// The seconds for which a warning about the child's error stays on display.
pub const WARNING_PAUSE_SECS: u64 = 5;

/// The seconds between the report of a crash and the request for a restart.
pub const RESTART_DELAY_SECS: u64 = 5;

/// Where a supervised launch stands.
#[derive(Clone, Copy, Debug, PartialEq, Eq, Structural)]
pub enum Phase {
    /// The child is not started yet.
    Starting,
    /// The child runs and has given no address yet.
    AwaitingFirstSignal,
    /// The child has just been assigned its address.
    Joined,
    /// The child has its address and goes on.
    Running,
    /// The child's output has ended and the child has exited.
    Exited,
    /// The child ended because the user stopped it.
    StoppedByUser,
    /// The child ended unexpectedly; a restart has been asked for.
    CrashedAwaitingRestart,
}

/// The state of the supervisor.
#[derive(Clone, Copy, Debug, PartialEq, Eq, Structural)]
pub struct SupervisorState {
    pub phase: Phase,
    /// The handoff to the launching call has been fulfilled.
    pub handoff_done: bool,
    /// The child was assigned an address, which the handoff delivered.
    pub joined: bool,
}

/// The level of the log entries that report an error.
pub const ERROR_LEVEL: &'static str = "error";

/// The bytes of the level of the log entries that report an error.
pub open spec fn error_level() -> Seq<u8> {
    ERROR_LEVEL.spec_bytes()
}

/// The error by which the child reports an expired credential.
pub const EXPIRED_ERROR: &'static str = "Hiper certificate for this point is expired";

/// The bytes of the error by which the child reports an expired credential.
pub open spec fn expired_error() -> Seq<u8> {
    EXPIRED_ERROR.spec_bytes()
}

/// The error by which the child reports that it could not open its listener.
pub const LISTEN_ERROR: &'static str = "Failed to open udp listener";

/// The bytes of the error by which the child reports that it could not open its listener.
pub open spec fn listen_error() -> Seq<u8> {
    LISTEN_ERROR.spec_bytes()
}

/// The error by which the child reports that the driver gave it no device.
pub const DEVICE_ERROR: &'static str = "Failed to get a tun/tap device";

/// The bytes of the error by which the child reports that the driver gave it no device.
pub open spec fn device_error() -> Seq<u8> {
    DEVICE_ERROR.spec_bytes()
}

/// The warning that a log entry calls for: one for each known error of an
/// entry of the error level, none for anything else.
pub open spec fn warning_for(level: Seq<u8>, error: Seq<u8>) -> Option<Warning> {
    if level != error_level() {
        None
    } else if error == expired_error() {
        Some(Warning::CredentialExpired)
    } else if error == listen_error() {
        Some(Warning::ListenFailure)
    } else if error == device_error() {
        Some(Warning::DriverAcquisitionFailure)
    } else {
        None
    }
}

/// The number of handoff deliveries among the actions.
pub open spec fn deliveries(actions: Seq<ActionView>) -> nat
    decreases actions.len(),
{
    if actions.len() == 0 {
        0
    } else {
        deliveries(actions.drop_last()) + if actions.last() is Deliver {
            1nat
        } else {
            0nat
        }
    }
}

/// What the child lets the supervisor see: a line of its output, given by the
/// event it carries, or the end of its output, with whether it has exited.
pub enum Signal {
    Line(Option<LogEventView>),
    EndOfStream { exited: bool },
}

impl SupervisorState {
    /// The state before the child is started.
    pub open spec fn initial() -> SupervisorState {
        SupervisorState { phase: Phase::Starting, handoff_done: false, joined: false }
    }

    /// The flags fit the phase.
    pub open spec fn wf(self) -> bool {
        &&& self.joined ==> self.handoff_done
        &&& match self.phase {
            Phase::Starting => !self.handoff_done,
            Phase::AwaitingFirstSignal => !self.joined,
            Phase::Joined | Phase::Running => self.joined,
            Phase::Exited | Phase::StoppedByUser => self.handoff_done,
            Phase::CrashedAwaitingRestart => self.joined,
        }
    }

    /// The child's output is being read.
    pub open spec fn reading(self) -> bool {
        self.phase == Phase::AwaitingFirstSignal || self.phase == Phase::Joined || self.phase
            == Phase::Running
    }

    /// The state after the child was started.
    pub open spec fn begun(self) -> SupervisorState {
        if self.phase == Phase::Starting {
            SupervisorState { phase: Phase::AwaitingFirstSignal, ..self }
        } else {
            self
        }
    }

    /// What the start of the child calls for: the sink learns of the launch,
    /// the processes of an earlier session, `live`, are terminated, and the
    /// session log is created.
    pub open spec fn begin_actions(self, live: Seq<u32>) -> Seq<ActionView> {
        if self.phase == Phase::Starting {
            seq![ActionView::Emit(StatusEventView::Launch)] + terminations(live) + seq![
                ActionView::OpenLog,
            ]
        } else {
            Seq::empty()
        }
    }

    /// What the event of a line calls for, beyond the logging of the line.
    ///
    /// An address fulfils the handoff and marks the launch as joined, if the
    /// handoff is still open; later addresses change nothing. The unspecified
    /// address fulfils an open handoff with failure. The end of validity goes
    /// to the status sink; it does not make the launch joined, and it fulfils
    /// an open handoff, with failure, since it brings no address. A known
    /// error is shown as a warning, which is cleared after a pause.
    pub open spec fn reaction(self, event: Option<LogEventView>) -> Seq<ActionView> {
        match event {
            Some(LogEventView::IpAssigned(Some(ip))) => if self.handoff_done {
                Seq::empty()
            } else {
                seq![ActionView::Deliver(Some(ip)), ActionView::Emit(StatusEventView::Joined)]
            },
            Some(LogEventView::IpAssigned(None)) => if self.handoff_done {
                Seq::empty()
            } else {
                seq![ActionView::Deliver(None)]
            },
            Some(LogEventView::ValidUntil(until)) => if self.handoff_done {
                seq![ActionView::Emit(StatusEventView::SetValid(until))]
            } else {
                seq![ActionView::Emit(StatusEventView::SetValid(until)), ActionView::Deliver(None)]
            },
            Some(LogEventView::StructuredLog { level, message, error }) => match warning_for(
                level,
                error,
            ) {
                Some(warning) => seq![
                    warn(Some(warning)),
                    ActionView::Pause(WARNING_PAUSE_SECS),
                    warn(None),
                ],
                None => Seq::empty(),
            },
            None => Seq::empty(),
        }
    }

    /// What a line with the given event calls for: while the output is read,
    /// the line is logged and reacted to; otherwise nothing is done.
    pub open spec fn line_actions(self, event: Option<LogEventView>) -> Seq<ActionView> {
        if self.reading() {
            seq![ActionView::AppendLog] + self.reaction(event)
        } else {
            Seq::empty()
        }
    }

    /// The state after a line with the given event.
    pub open spec fn after_line(self, event: Option<LogEventView>) -> SupervisorState {
        if !self.reading() {
            self
        } else {
            let joins = !self.handoff_done && event matches Some(LogEventView::IpAssigned(Some(_)));
            let settles = event matches Some(LogEventView::IpAssigned(_)) || event matches Some(
                LogEventView::ValidUntil(_),
            );
            SupervisorState {
                phase: if joins {
                    Phase::Joined
                } else if self.phase == Phase::Joined {
                    Phase::Running
                } else {
                    self.phase
                },
                handoff_done: self.handoff_done || settles,
                joined: self.joined || joins,
            }
        }
    }

    /// What the end of the child's output calls for: once the child has
    /// exited, an open handoff is fulfilled with failure.
    pub open spec fn end_actions(self, exited: bool) -> Seq<ActionView> {
        if self.reading() && exited && !self.handoff_done {
            seq![ActionView::Deliver(None)]
        } else {
            Seq::empty()
        }
    }

    /// The state after the end of the child's output: reading ends once the
    /// child has exited, and goes on until then.
    pub open spec fn after_end(self, exited: bool) -> SupervisorState {
        if self.reading() && exited {
            SupervisorState { phase: Phase::Exited, handoff_done: true, joined: self.joined }
        } else {
            self
        }
    }

    /// The child's end counts as a crash: it had joined, did not end with
    /// success, and was not stopped by the user.
    pub open spec fn crashed(self, clean_exit: bool, stopped_by_user: bool) -> bool {
        self.joined && !clean_exit && !stopped_by_user
    }

    /// What the exit of the child calls for: the sink learns that the child
    /// has stopped; after a crash it also gets the warning and the crash
    /// signal, and, after the delay, the request for a restart.
    pub open spec fn settle_actions(self, clean_exit: bool, stopped_by_user: bool) -> Seq<
        ActionView,
    > {
        if self.phase != Phase::Exited {
            Seq::empty()
        } else if self.crashed(clean_exit, stopped_by_user) {
            seq![
                ActionView::Emit(StatusEventView::Stopped),
                warn(Some(Warning::Crashed)),
                ActionView::Emit(StatusEventView::Crashed),
                ActionView::Pause(RESTART_DELAY_SECS),
                ActionView::Emit(StatusEventView::RequestRestart),
            ]
        } else {
            seq![ActionView::Emit(StatusEventView::Stopped)]
        }
    }

    /// The state after the exit of the child was settled.
    pub open spec fn after_settle(self, clean_exit: bool, stopped_by_user: bool) -> SupervisorState {
        if self.phase != Phase::Exited {
            self
        } else if self.crashed(clean_exit, stopped_by_user) {
            SupervisorState { phase: Phase::CrashedAwaitingRestart, ..self }
        } else if stopped_by_user {
            SupervisorState { phase: Phase::StoppedByUser, ..self }
        } else {
            self
        }
    }

    /// The state after one signal of the child.
    pub open spec fn after_signal(self, signal: Signal) -> SupervisorState {
        match signal {
            Signal::Line(event) => self.after_line(event),
            Signal::EndOfStream { exited } => self.after_end(exited),
        }
    }

    /// What one signal of the child calls for.
    pub open spec fn signal_actions(self, signal: Signal) -> Seq<ActionView> {
        match signal {
            Signal::Line(event) => self.line_actions(event),
            Signal::EndOfStream { exited } => self.end_actions(exited),
        }
    }

    /// The state after a run of signals.
    pub open spec fn after_run(self, signals: Seq<Signal>) -> SupervisorState
        decreases signals.len(),
    {
        if signals.len() == 0 {
            self
        } else {
            self.after_run(signals.drop_last()).after_signal(signals.last())
        }
    }

    /// All that a run of signals calls for, in order.
    pub open spec fn run_actions(self, signals: Seq<Signal>) -> Seq<ActionView>
        decreases signals.len(),
    {
        if signals.len() == 0 {
            Seq::empty()
        } else {
            self.run_actions(signals.drop_last()) + self.after_run(
                signals.drop_last(),
            ).signal_actions(signals.last())
        }
    }
}

/// The supervisor of one launched child.
pub struct Supervisor {
    state: SupervisorState,
}

impl View for Supervisor {
    type V = SupervisorState;

    closed spec fn view(&self) -> SupervisorState {
        self.state
    }
}

/// The warning that a log entry calls for.
pub fn classify_error(level: &[u8], error: &[u8]) -> (r: Option<Warning>)
    ensures
        r == warning_for(level@, error@),
{
    if !same_bytes(level, ERROR_LEVEL.as_bytes()) {
        None
    } else if same_bytes(error, EXPIRED_ERROR.as_bytes()) {
        Some(Warning::CredentialExpired)
    } else if same_bytes(error, LISTEN_ERROR.as_bytes()) {
        Some(Warning::ListenFailure)
    } else if same_bytes(error, DEVICE_ERROR.as_bytes()) {
        Some(Warning::DriverAcquisitionFailure)
    } else {
        None
    }
}

impl Supervisor {
    #[verifier::type_invariant]
    spec fn inv(&self) -> bool {
        self.state.wf()
    }

    /// A supervisor whose child is not started yet.
    pub fn new() -> (r: Self)
        ensures
            r@ == SupervisorState::initial(),
            r@.wf(),
    {
        Supervisor {
            state: SupervisorState { phase: Phase::Starting, handoff_done: false, joined: false },
        }
    }

    /// The state of the supervisor.
    pub fn state(&self) -> (r: SupervisorState)
        ensures
            r == self@,
            r.wf(),
    {
        proof {
            use_type_invariant(self);
        }
        self.state
    }

    /// Takes note that the child was started with the process id `pid`. One
    /// session is active at a time: what an earlier session left in the
    /// registry is cleared and handed back for termination. Then the child is
    /// registered as the client, before any line is read and so before the
    /// handoff can be fulfilled, and the session log is created.
    pub fn start(&mut self, registry: &mut ProcessRegistry, pid: u32) -> (r: Vec<Action>)
        ensures
            r.deep_view() == old(self)@.begin_actions(old(registry)@.live()),
            final(self)@ == old(self)@.begun(),
            final(self)@.wf(),
            final(registry)@ == if old(self)@.phase == Phase::Starting {
                old(registry)@.stopped().registered(pid, Role::Main)
            } else {
                old(registry)@
            },
    {
        proof {
            use_type_invariant(&*self);
        }
        let mut actions: Vec<Action> = Vec::new();
        if self.state.phase == Phase::Starting {
            actions.push(Action::Emit(StatusEvent::Launch));
            let earlier = stop_hiper_directly(registry);
            assert(actions.deep_view() =~= seq![ActionView::Emit(StatusEventView::Launch)]);
            push_terminations(&mut actions, &earlier);
            actions.push(Action::OpenLog);
            registry.register(pid, Role::Main);
            self.state = SupervisorState { phase: Phase::AwaitingFirstSignal, ..self.state };
        }
        assert(actions.deep_view() =~= old(self)@.begin_actions(old(registry)@.live()));
        actions
    }

    /// Reacts to the event that a line carries.
    pub fn on_event(&mut self, event: &Option<LogEvent>) -> (r: Vec<Action>)
        ensures
            r.deep_view() == old(self)@.line_actions(event_view(*event)),
            final(self)@ == old(self)@.after_line(event_view(*event)),
            final(self)@.wf(),
    {
        proof {
            use_type_invariant(&*self);
        }
        let ghost seen = event_view(*event);
        let before = self.state;
        let mut actions: Vec<Action> = Vec::new();
        if !(before.phase == Phase::AwaitingFirstSignal || before.phase == Phase::Joined
            || before.phase == Phase::Running) {
            assert(actions.deep_view() =~= before.line_actions(seen));
            return actions;
        }
        actions.push(Action::AppendLog);
        let mut joins = false;
        let mut settles = false;
        match event {
            Some(LogEvent::IpAssigned(Some(ip))) => {
                settles = true;
                if !before.handoff_done {
                    joins = true;
                    actions.push(Action::Deliver(Some(*ip)));
                    actions.push(Action::Emit(StatusEvent::Joined));
                }
            },
            Some(LogEvent::IpAssigned(None)) => {
                settles = true;
                if !before.handoff_done {
                    actions.push(Action::Deliver(None));
                }
            },
            Some(LogEvent::ValidUntil(until)) => {
                settles = true;
                actions.push(Action::Emit(StatusEvent::SetValid(slice_to_vec(until.as_slice()))));
                if !before.handoff_done {
                    actions.push(Action::Deliver(None));
                }
            },
            Some(LogEvent::StructuredLog { level, message, error }) => {
                if let Some(warning) = classify_error(level.as_slice(), error.as_slice()) {
                    actions.push(Action::Emit(StatusEvent::SetWarning(Some(warning))));
                    actions.push(Action::Pause(WARNING_PAUSE_SECS));
                    actions.push(Action::Emit(StatusEvent::SetWarning(None)));
                }
            },
            None => {},
        }
        self.state = SupervisorState {
            phase: if joins {
                Phase::Joined
            } else if before.phase == Phase::Joined {
                Phase::Running
            } else {
                before.phase
            },
            handoff_done: before.handoff_done || settles,
            joined: before.joined || joins,
        };
        assert(actions.deep_view() =~= before.line_actions(seen));
        actions
    }

    /// Takes one line of the child's output: classifies it and reacts to it.
    pub fn on_line(&mut self, line: &[u8]) -> (r: Vec<Action>)
        ensures
            r.deep_view() == old(self)@.line_actions(event_of(line@)),
            final(self)@ == old(self)@.after_line(event_of(line@)),
            final(self)@.wf(),
    {
        let event = parse_line(line);
        self.on_event(&event)
    }

    /// Takes the end of the child's output. `exited` says whether the child
    /// is known to have exited; while it has not, reading goes on.
    pub fn on_end_of_stream(&mut self, exited: bool) -> (r: Vec<Action>)
        ensures
            r.deep_view() == old(self)@.end_actions(exited),
            final(self)@ == old(self)@.after_end(exited),
            final(self)@.wf(),
    {
        proof {
            use_type_invariant(&*self);
        }
        let before = self.state;
        let mut actions: Vec<Action> = Vec::new();
        let reading = before.phase == Phase::AwaitingFirstSignal || before.phase == Phase::Joined
            || before.phase == Phase::Running;
        if reading && exited {
            if !before.handoff_done {
                actions.push(Action::Deliver(None));
            }
            self.state =
            SupervisorState { phase: Phase::Exited, handoff_done: true, joined: before.joined };
        }
        assert(actions.deep_view() =~= before.end_actions(exited));
        actions
    }

    /// Settles the exit of the child, which had the process id `pid` and
    /// ended with success or not. The child counts as stopped by the user
    /// when the registry no longer holds it as the client. The record of
    /// `pid` is removed.
    pub fn settle(&mut self, registry: &mut ProcessRegistry, pid: u32, clean_exit: bool) -> (r:
        Vec<Action>)
        ensures
            r.deep_view() == old(self)@.settle_actions(clean_exit, old(registry)@.main != pid),
            final(self)@ == old(self)@.after_settle(clean_exit, old(registry)@.main != pid),
            final(self)@.wf(),
            final(registry)@ == old(registry)@.released(pid),
            final(registry)@.wf(),
    {
        proof {
            use_type_invariant(&*self);
        }
        let before = self.state;
        let stopped_by_user = registry.main_pid() != pid;
        registry.unregister(pid);
        let mut actions: Vec<Action> = Vec::new();
        if before.phase == Phase::Exited {
            actions.push(Action::Emit(StatusEvent::Stopped));
            if before.joined && !clean_exit && !stopped_by_user {
                actions.push(Action::Emit(StatusEvent::SetWarning(Some(Warning::Crashed))));
                actions.push(Action::Emit(StatusEvent::Crashed));
                actions.push(Action::Pause(RESTART_DELAY_SECS));
                actions.push(Action::Emit(StatusEvent::RequestRestart));
                self.state = SupervisorState { phase: Phase::CrashedAwaitingRestart, ..before };
            } else if stopped_by_user {
                self.state = SupervisorState { phase: Phase::StoppedByUser, ..before };
            }
        }
        assert(actions.deep_view() =~= before.settle_actions(clean_exit, stopped_by_user));
        actions
    }
}

/// The deliveries among two runs of actions add up.
proof fn lemma_deliveries_add(first: Seq<ActionView>, second: Seq<ActionView>)
    ensures
        deliveries(first + second) == deliveries(first) + deliveries(second),
    decreases second.len(),
{
    if second.len() == 0 {
        assert(first + second =~= first);
    } else {
        lemma_deliveries_add(first, second.drop_last());
        assert((first + second).drop_last() =~= first + second.drop_last());
    }
}

/// One signal fulfils the handoff at most once, and exactly when it closes it.
proof fn lemma_signal_delivers(s: SupervisorState, signal: Signal)
    requires
        s.wf(),
    ensures
        s.after_signal(signal).wf(),
        s.handoff_done ==> s.after_signal(signal).handoff_done,
        deliveries(s.signal_actions(signal)) == if s.after_signal(signal).handoff_done
            && !s.handoff_done {
            1nat
        } else {
            0nat
        },
{
    let actions = s.signal_actions(signal);
    reveal_with_fuel(deliveries, 5);
    match signal {
        Signal::Line(event) => {
            if s.reading() {
                lemma_deliveries_add(seq![ActionView::AppendLog], s.reaction(event));
            }
        },
        Signal::EndOfStream { exited } => {},
    }
}

/// The handoff is fulfilled exactly once. Over any run of signals that starts
/// with the handoff open, the actions hold at most one delivery; they hold
/// one as soon as the handoff is closed, which it is when the child has
/// exited and its output has ended. A closed handoff stays closed and no
/// further delivery is made.
pub proof fn lemma_handoff_once(s: SupervisorState, signals: Seq<Signal>)
    requires
        s.wf(),
    ensures
        s.after_run(signals).wf(),
        s.handoff_done ==> s.after_run(signals).handoff_done,
        deliveries(s.run_actions(signals)) == if s.after_run(signals).handoff_done
            && !s.handoff_done {
            1nat
        } else {
            0nat
        },
        s.after_run(signals).phase == Phase::Exited ==> s.after_run(signals).handoff_done,
    decreases signals.len(),
{
    if signals.len() > 0 {
        let front = signals.drop_last();
        lemma_handoff_once(s, front);
        lemma_signal_delivers(s.after_run(front), signals.last());
        lemma_deliveries_add(
            s.run_actions(front),
            s.after_run(front).signal_actions(signals.last()),
        );
    }
}

/// A crash is reported once. Settling the exit of a child that crashed asks
/// for one restart and leaves a state in which settling again, and any further
/// signal, calls for nothing.
pub proof fn lemma_crash_reported_once(
    s: SupervisorState,
    clean_exit: bool,
    stopped_by_user: bool,
    again_clean: bool,
    again_stopped: bool,
    signal: Signal,
)
    requires
        s.wf(),
        s.phase == Phase::Exited,
        s.crashed(clean_exit, stopped_by_user),
    ensures
        s.after_settle(clean_exit, stopped_by_user).phase == Phase::CrashedAwaitingRestart,
        s.after_settle(clean_exit, stopped_by_user).settle_actions(again_clean, again_stopped)
            == Seq::<ActionView>::empty(),
        s.after_settle(clean_exit, stopped_by_user).signal_actions(signal) == Seq::<
            ActionView,
        >::empty(),
{
}

/// Nothing is delivered before the child is started and registered: until
/// then no signal calls for anything.
pub proof fn lemma_no_delivery_before_start(signal: Signal)
    ensures
        SupervisorState::initial().signal_actions(signal) == Seq::<ActionView>::empty(),
        SupervisorState::initial().after_signal(signal) == SupervisorState::initial(),
{
}

/// No restart is asked for unless the child had joined, ended without
/// success and was not stopped by the user.
pub proof fn lemma_restart_only_after_crash(
    s: SupervisorState,
    clean_exit: bool,
    stopped_by_user: bool,
)
    requires
        !s.joined || clean_exit || stopped_by_user,
    ensures
        !s.settle_actions(clean_exit, stopped_by_user).contains(
            ActionView::Emit(StatusEventView::RequestRestart),
        ),
{
    let actions = s.settle_actions(clean_exit, stopped_by_user);
    if actions.contains(ActionView::Emit(StatusEventView::RequestRestart)) {
        let i = choose|i: int|
            0 <= i < actions.len() && actions[i] == ActionView::Emit(
                StatusEventView::RequestRestart,
            );
        assert(actions[0] == ActionView::Emit(StatusEventView::Stopped));
    }
}

} // verus!
