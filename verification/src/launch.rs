//! The launching call: how the child is started, what the sink is told once
//! the handoff is fulfilled, and how the client is stopped.

use vstd::prelude::*;
use vstd::string::StringExecFns;
use crate::address::Ipv4;
use crate::layout::Platform;
use crate::registry::{stop_hiper_directly, ProcessRegistry};
use crate::status::{say, terminations, warn, Action, ActionView, ErrorKind, LaunchError, Stage};
use crate::status::{StatusEvent, StatusEventView, StatusText, Warning};

verus! {

/// The flag with which Windows starts a process without a console window.
pub const CREATE_NO_WINDOW: u32 = 0x0800_0000;

/// What a stream of the child is connected to.
#[derive(Clone, Copy, Debug, PartialEq, Eq, Structural)]
pub enum Stream {
    /// Nothing: the stream is closed to the child.
    Null,
    /// A pipe that the supervisor reads.
    Piped,
}

/// How the child is started, beyond its arguments.
#[derive(Clone, Copy, Debug, PartialEq, Eq, Structural)]
pub struct ChildSetup {
    pub stdin: Stream,
    pub stdout: Stream,
    pub stderr: Stream,
    /// The creation flags of the process; 0 where the system has none.
    pub creation_flags: u32,
}

/// The setup of the child: no input, output and errors through pipes, and on
/// Windows no console window.
pub open spec fn setup_for(platform: Platform) -> ChildSetup {
    ChildSetup {
        stdin: Stream::Null,
        stdout: Stream::Piped,
        stderr: Stream::Piped,
        creation_flags: if platform == Platform::Windows {
            CREATE_NO_WINDOW
        } else {
            0
        },
    }
}

/// The arguments of the child: the credential file behind `-config` where
/// there is one, nothing for an anonymous session.
pub open spec fn arguments_for(config: Option<Seq<char>>) -> Seq<Seq<char>> {
    match config {
        Some(path) => seq!["-config"@, path],
        None => Seq::empty(),
    }
}

/// The stage that follows a stage which went well. The stages of a launch
/// come in one order: the layout, the credential, the driver, the update, the
/// start of the child, and the wait for the handoff, after which none follows.
pub open spec fn next_stage(stage: Stage) -> Option<Stage> {
    match stage {
        Stage::Layout => Some(Stage::Credential),
        Stage::Credential => Some(Stage::Driver),
        Stage::Driver => Some(Stage::Update),
        Stage::Update => Some(Stage::Spawn),
        Stage::Spawn => Some(Stage::Handoff),
        Stage::Handoff => None,
    }
}

/// How a launch goes on after a stage: to the next stage where the stage
/// went well, and to its end with the stage's error where it did not.
pub open spec fn advanced(stage: Stage, failure: Option<ErrorKind>) -> Result<
    Option<Stage>,
    LaunchError,
> {
    match failure {
        Some(kind) => Err(LaunchError { kind, stage }),
        None => Ok(next_stage(stage)),
    }
}

/// Where a launch stands after the stages from `stage` on have ended as
/// `outcomes` says, one after the other: the stage that is due, `None` when
/// all are done, or the error that ended the launch. After an error and
/// after the last stage nothing more is run.
pub open spec fn progress(stage: Stage, outcomes: Seq<Option<ErrorKind>>) -> Result<
    Option<Stage>,
    LaunchError,
>
    decreases outcomes.len(),
{
    if outcomes.len() == 0 {
        Ok(Some(stage))
    } else {
        match progress(stage, outcomes.drop_last()) {
            Ok(Some(due)) => advanced(due, outcomes.last()),
            ended => ended,
        }
    }
}

/// What the entry into a stage calls for. The first stage tells the sink
/// that the files are checked and clears the warning of an earlier launch;
/// the start of the child is announced; the other stages announce their own
/// steps.
pub open spec fn entry_actions(stage: Stage) -> Seq<ActionView> {
    match stage {
        Stage::Layout => seq![say(StatusText::CheckingFiles), warn(None)],
        Stage::Spawn => seq![say(StatusText::Launching)],
        _ => Seq::empty(),
    }
}

/// What follows the handoff. With an address the sink shows it and offers to
/// stop; without a token it warns that the session is anonymous. Without an
/// address the launch has failed: the sink offers to start again, whatever was
/// started is terminated, and without a token the sink warns that the session
/// was anonymous.
pub open spec fn outcome_actions(
    delivered: Option<Ipv4>,
    has_token: bool,
    live: Seq<u32>,
) -> Seq<ActionView> {
    let anonymous = if has_token {
        Seq::<ActionView>::empty()
    } else {
        seq![warn(Some(Warning::AnonymousMode))]
    };
    match delivered {
        Some(ip) => anonymous + seq![
            ActionView::Emit(StatusEventView::SetIp(Some(ip))),
            say(StatusText::Stop),
        ],
        None => seq![say(StatusText::Start)] + terminations(live) + anonymous,
    }
}

/// What an explicit stop does: the sink is told that the client is being
/// stopped; every registered process is terminated; and only then are the
/// warning, the address and the validity cleared and the start offered again.
pub open spec fn stop_actions(live: Seq<u32>) -> Seq<ActionView> {
    seq![say(StatusText::Stopping)] + terminations(live) + seq![
        warn(None),
        ActionView::Emit(StatusEventView::SetIp(None)),
        ActionView::Emit(StatusEventView::SetValid(Seq::empty())),
        say(StatusText::Start),
    ]
}

/// What begins a launch attempt: the controls are disabled while it lasts.
pub open spec fn attempt_actions() -> Seq<ActionView> {
    seq![ActionView::Emit(StatusEventView::SetDisabled(true))]
}

/// What ends a launch attempt: after an error the sink shows it and offers to
/// start again; in either case the controls are enabled again.
pub open spec fn report_actions(result: Result<(), LaunchError>) -> Seq<ActionView> {
    match result {
        Ok(_) => seq![ActionView::Emit(StatusEventView::SetDisabled(false))],
        Err(e) => seq![
            warn(Some(Warning::LaunchFailed(e))),
            say(StatusText::Start),
            ActionView::Emit(StatusEventView::SetDisabled(false)),
        ],
    }
}

/// The setup with which the child is started.
pub fn child_setup(platform: Platform) -> (r: ChildSetup)
    ensures
        r == setup_for(platform),
{
    ChildSetup {
        stdin: Stream::Null,
        stdout: Stream::Piped,
        stderr: Stream::Piped,
        creation_flags: match platform {
            Platform::Windows => CREATE_NO_WINDOW,
            _ => 0,
        },
    }
}

/// The arguments with which the child is started. `config` is the path of
/// the credential file, if the launch has one.
pub fn child_arguments(config: Option<&str>) -> (r: Vec<String>)
    ensures
        r.deep_view() == arguments_for(
            match config {
                Some(path) => Some(path@),
                None => None,
            },
        ),
{
    let mut arguments: Vec<String> = Vec::new();
    if let Some(path) = config {
        arguments.push(String::from_str("-config"));
        arguments.push(String::from_str(path));
        assert(arguments.deep_view() =~= seq!["-config"@, path@]);
    } else {
        assert(arguments.deep_view() =~= Seq::<Seq<char>>::empty());
    }
    arguments
}

/// Decides how a launch goes on after `stage`. `failure` is the kind of the
/// error that the stage met, `None` where it went well.
pub fn advance(stage: Stage, failure: Option<ErrorKind>) -> (r: Result<Option<Stage>, LaunchError>)
    ensures
        r == advanced(stage, failure),
{
    match failure {
        Some(kind) => Err(LaunchError { kind, stage }),
        None => Ok(
            match stage {
                Stage::Layout => Some(Stage::Credential),
                Stage::Credential => Some(Stage::Driver),
                Stage::Driver => Some(Stage::Update),
                Stage::Update => Some(Stage::Spawn),
                Stage::Spawn => Some(Stage::Handoff),
                Stage::Handoff => None,
            },
        ),
    }
}

/// The actions with which a stage is entered.
pub fn enter_stage(stage: Stage) -> (r: Vec<Action>)
    ensures
        r.deep_view() == entry_actions(stage),
{
    let mut actions: Vec<Action> = Vec::new();
    match stage {
        Stage::Layout => {
            actions.push(Action::Emit(StatusEvent::SetStatusText(StatusText::CheckingFiles)));
            actions.push(Action::Emit(StatusEvent::SetWarning(None)));
        },
        Stage::Spawn => {
            actions.push(Action::Emit(StatusEvent::SetStatusText(StatusText::Launching)));
        },
        _ => {},
    }
    assert(actions.deep_view() =~= entry_actions(stage));
    actions
}

/// Appends to `actions` the termination of each process of `pids`.
pub(crate) fn push_terminations(actions: &mut Vec<Action>, pids: &Vec<u32>)
    ensures
        final(actions).deep_view() == old(actions).deep_view() + terminations(pids@),
{
    let mut i: usize = 0;
    assert(actions.deep_view() =~= old(actions).deep_view() + terminations(pids@.take(0)));
    while i < pids.len()
        invariant
            i <= pids@.len(),
            actions.deep_view() == old(actions).deep_view() + terminations(pids@.take(i as int)),
        decreases pids@.len() - i,
    {
        let ghost before = actions.deep_view();
        actions.push(Action::Terminate(pids[i]));
        assert(actions.deep_view() =~= before.push(ActionView::Terminate(pids@[i as int])));
        assert(terminations(pids@.take(i + 1)) =~= terminations(pids@.take(i as int)).push(
            ActionView::Terminate(pids@[i as int]),
        ));
        i += 1;
        assert(actions.deep_view() =~= old(actions).deep_view() + terminations(
            pids@.take(i as int),
        ));
    }
    assert(pids@.take(pids@.len() as int) =~= pids@);
}

/// Decides what follows the handoff. `delivered` is what the handoff
/// brought: the assigned address, or `None` for failure, on which the
/// registry is cleared and its processes are terminated.
pub fn run_hiper_outcome(
    registry: &mut ProcessRegistry,
    delivered: Option<Ipv4>,
    has_token: bool,
) -> (r: Vec<Action>)
    ensures
        r.deep_view() == outcome_actions(delivered, has_token, old(registry)@.live()),
        final(registry)@ == if delivered is Some {
            old(registry)@
        } else {
            old(registry)@.stopped()
        },
{
    let mut actions: Vec<Action> = Vec::new();
    match delivered {
        Some(ip) => {
            if !has_token {
                actions.push(Action::Emit(StatusEvent::SetWarning(Some(Warning::AnonymousMode))));
            }
            actions.push(Action::Emit(StatusEvent::SetIp(Some(ip))));
            actions.push(Action::Emit(StatusEvent::SetStatusText(StatusText::Stop)));
            assert(actions.deep_view() =~= outcome_actions(
                delivered,
                has_token,
                old(registry)@.live(),
            ));
        },
        None => {
            actions.push(Action::Emit(StatusEvent::SetStatusText(StatusText::Start)));
            let doomed = stop_hiper_directly(registry);
            let ghost first = actions.deep_view();
            assert(first =~= seq![say(StatusText::Start)]);
            push_terminations(&mut actions, &doomed);
            if !has_token {
                actions.push(Action::Emit(StatusEvent::SetWarning(Some(Warning::AnonymousMode))));
            }
            assert(actions.deep_view() =~= outcome_actions(
                delivered,
                has_token,
                old(registry)@.live(),
            ));
        },
    }
    actions
}

/// Stops the client at the user's request: clears the registry and returns
/// what has to be done, the terminations before the clearing of the status.
pub fn stop_hiper(registry: &mut ProcessRegistry) -> (r: Vec<Action>)
    ensures
        r.deep_view() == stop_actions(old(registry)@.live()),
        final(registry)@ == old(registry)@.stopped(),
        !final(registry)@.running(),
{
    let mut actions: Vec<Action> = Vec::new();
    actions.push(Action::Emit(StatusEvent::SetStatusText(StatusText::Stopping)));
    let doomed = stop_hiper_directly(registry);
    assert(actions.deep_view() =~= seq![say(StatusText::Stopping)]);
    push_terminations(&mut actions, &doomed);
    let ghost middle = actions.deep_view();
    actions.push(Action::Emit(StatusEvent::SetWarning(None)));
    actions.push(Action::Emit(StatusEvent::SetIp(None)));
    actions.push(Action::Emit(StatusEvent::SetValid(Vec::new())));
    actions.push(Action::Emit(StatusEvent::SetStatusText(StatusText::Start)));
    assert(actions.deep_view() =~= middle + seq![
        warn(None),
        ActionView::Emit(StatusEventView::SetIp(None)),
        ActionView::Emit(StatusEventView::SetValid(Seq::empty())),
        say(StatusText::Start),
    ]);
    actions
}

/// The actions that begin a launch attempt.
pub fn run_hiper_attempt() -> (r: Vec<Action>)
    ensures
        r.deep_view() == attempt_actions(),
{
    let mut actions: Vec<Action> = Vec::new();
    actions.push(Action::Emit(StatusEvent::SetDisabled(true)));
    assert(actions.deep_view() =~= attempt_actions());
    actions
}

/// Decides what ends a launch attempt, by its result.
pub fn run_hiper_report(result: Result<(), LaunchError>) -> (r: Vec<Action>)
    ensures
        r.deep_view() == report_actions(result),
{
    let mut actions: Vec<Action> = Vec::new();
    if let Err(e) = result {
        actions.push(Action::Emit(StatusEvent::SetWarning(Some(Warning::LaunchFailed(e)))));
        actions.push(Action::Emit(StatusEvent::SetStatusText(StatusText::Start)));
    }
    actions.push(Action::Emit(StatusEvent::SetDisabled(false)));
    assert(actions.deep_view() =~= report_actions(result));
    actions
}

/// No child is started unless everything before went well: a launch that
/// stands at the start of the child has run the four stages before it, and
/// none of them met an error. An error ends the launch for good: whatever is
/// reported afterwards, the launch stays ended with that error.
pub proof fn lemma_spawn_after_success(outcomes: Seq<Option<ErrorKind>>, more: Option<ErrorKind>)
    ensures
        progress(Stage::Layout, outcomes) == Ok::<Option<Stage>, LaunchError>(Some(Stage::Spawn))
            ==> outcomes.len() == 4 && forall|i: int|
            0 <= i < outcomes.len() ==> outcomes[i] is None,
        progress(Stage::Layout, outcomes) is Err ==> progress(Stage::Layout, outcomes.push(more))
            == progress(Stage::Layout, outcomes),
    decreases outcomes.len(),
{
    assert(outcomes.push(more).drop_last() =~= outcomes);
    lemma_progress_counts(outcomes);
}

/// The stage that is due tells how many stages have been run, all without
/// error.
proof fn lemma_progress_counts(outcomes: Seq<Option<ErrorKind>>)
    ensures
        match progress(Stage::Layout, outcomes) {
            Ok(Some(due)) => outcomes.len() == stage_index(due) && forall|i: int|
                0 <= i < outcomes.len() ==> outcomes[i] is None,
            _ => true,
        },
    decreases outcomes.len(),
{
    if outcomes.len() > 0 {
        let front = outcomes.drop_last();
        lemma_progress_counts(front);
        match progress(Stage::Layout, outcomes) {
            Ok(Some(due)) => {
                assert(progress(Stage::Layout, front) matches Ok(Some(before)) && next_stage(before)
                    == Some(due) && outcomes.last() is None);
                assert forall|i: int| 0 <= i < outcomes.len() implies outcomes[i] is None by {
                    if i < front.len() {
                        assert(front[i] == outcomes[i]);
                    }
                }
            },
            _ => {},
        }
    }
}

/// The place of a stage in the order of the stages.
pub open spec fn stage_index(stage: Stage) -> nat {
    match stage {
        Stage::Layout => 0,
        Stage::Credential => 1,
        Stage::Driver => 2,
        Stage::Update => 3,
        Stage::Spawn => 4,
        Stage::Handoff => 5,
    }
}

/// In an explicit stop every termination comes before the status is
/// cleared: no child is left when the sink shows that nothing runs.
pub proof fn lemma_stop_terminates_first(live: Seq<u32>, i: int, j: int)
    requires
        0 <= i < stop_actions(live).len(),
        0 <= j < stop_actions(live).len(),
        stop_actions(live)[i] is Terminate,
        stop_actions(live)[j] == warn(None) || stop_actions(live)[j] == ActionView::Emit(
            StatusEventView::SetIp(None),
        ) || stop_actions(live)[j] == ActionView::Emit(StatusEventView::SetValid(Seq::empty()))
            || stop_actions(live)[j] == say(StatusText::Start),
    ensures
        i < j,
{
}

} // verus!
