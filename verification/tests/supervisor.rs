use hiper_supervisor::address::Ipv4;
use hiper_supervisor::launch::run_hiper_outcome;
use hiper_supervisor::log_line::LogEvent;
use hiper_supervisor::registry::{is_running, ProcessRegistry, Role};
use hiper_supervisor::status::{Action, StatusEvent, StatusText, Warning};
use hiper_supervisor::supervisor::{
    classify_error, Phase, Supervisor, SupervisorState, RESTART_DELAY_SECS, WARNING_PAUSE_SECS,
};

const ADDRESS: Ipv4 = Ipv4 { a: 192, b: 168, c: 1, d: 10 };

fn started(pid: u32) -> (Supervisor, ProcessRegistry) {
    let mut registry = ProcessRegistry::new();
    let mut supervisor = Supervisor::new();
    supervisor.start(&mut registry, pid);
    (supervisor, registry)
}

fn count(actions: &[Action], wanted: &Action) -> usize {
    actions.iter().filter(|a| *a == wanted).count()
}

#[test]
fn a_new_supervisor_is_starting() {
    let supervisor = Supervisor::new();
    assert_eq!(
        supervisor.state(),
        SupervisorState { phase: Phase::Starting, handoff_done: false, joined: false }
    );
}

#[test]
fn start_registers_the_child_and_opens_the_log() {
    let mut registry = ProcessRegistry::new();
    let mut supervisor = Supervisor::new();
    let actions = supervisor.start(&mut registry, 4242);
    assert_eq!(actions, vec![Action::Emit(StatusEvent::Launch), Action::OpenLog]);
    assert_eq!(supervisor.state().phase, Phase::AwaitingFirstSignal);
    assert!(is_running(&registry));
    assert_eq!(registry.main_pid(), 4242);
    assert_eq!(supervisor.start(&mut registry, 5), vec![]);
    assert_eq!(registry.main_pid(), 4242);
}

#[test]
fn start_ends_an_earlier_session() {
    let mut registry = ProcessRegistry::new();
    registry.register(100, Role::Main);
    registry.register(101, Role::Auxiliary);
    let mut supervisor = Supervisor::new();
    let actions = supervisor.start(&mut registry, 200);
    assert_eq!(
        actions,
        vec![
            Action::Emit(StatusEvent::Launch),
            Action::Terminate(100),
            Action::Terminate(101),
            Action::OpenLog,
        ]
    );
    assert_eq!(registry.main_pid(), 200);
    assert!(!registry.holds(100));
    assert!(!registry.holds(101));
}

#[test]
fn nothing_is_delivered_before_the_start() {
    let mut supervisor = Supervisor::new();
    assert_eq!(supervisor.on_line(br#"{"network":"10.0.0.5/8"}"#), vec![]);
    assert_eq!(supervisor.on_end_of_stream(true), vec![]);
    assert_eq!(supervisor.state().phase, Phase::Starting);
    assert!(!supervisor.state().handoff_done);
}

#[test]
fn an_address_fulfils_the_handoff_and_joins() {
    let (mut supervisor, _registry) = started(1);
    let actions = supervisor.on_line(br#"{"msg":"Hiper interface is active","network":"192.168.1.10/24"}"#);
    assert_eq!(
        actions,
        vec![
            Action::AppendLog,
            Action::Deliver(Some(ADDRESS)),
            Action::Emit(StatusEvent::Joined),
        ]
    );
    assert_eq!(
        supervisor.state(),
        SupervisorState { phase: Phase::Joined, handoff_done: true, joined: true }
    );
}

#[test]
fn later_addresses_are_only_logged() {
    let (mut supervisor, _registry) = started(1);
    supervisor.on_line(br#"{"network":"192.168.1.10/24"}"#);
    assert_eq!(supervisor.on_line(br#"{"network":"10.9.9.9/24"}"#), vec![Action::AppendLog]);
    assert_eq!(supervisor.on_line(br#"{"network":"0.0.0.0/24"}"#), vec![Action::AppendLog]);
    assert_eq!(
        supervisor.state(),
        SupervisorState { phase: Phase::Running, handoff_done: true, joined: true }
    );
}

#[test]
fn the_unspecified_address_delivers_failure() {
    let (mut supervisor, _registry) = started(1);
    let actions = supervisor.on_line(br#"{"network":"0.0.0.0/8"}"#);
    assert_eq!(actions, vec![Action::AppendLog, Action::Deliver(None)]);
    assert_eq!(
        supervisor.state(),
        SupervisorState { phase: Phase::AwaitingFirstSignal, handoff_done: true, joined: false }
    );
    assert_eq!(supervisor.on_line(br#"{"network":"10.0.0.5/8"}"#), vec![Action::AppendLog]);
    assert!(!supervisor.state().joined);
}

#[test]
fn validity_goes_to_the_sink_and_does_not_join() {
    let (mut supervisor, _registry) = started(1);
    let actions = supervisor.on_line(br#"{"notAfter":"2030-01-01"}"#);
    assert_eq!(
        actions,
        vec![
            Action::AppendLog,
            Action::Emit(StatusEvent::SetValid(b"2030-01-01".to_vec())),
            Action::Deliver(None),
        ]
    );
    assert_eq!(
        supervisor.state(),
        SupervisorState { phase: Phase::AwaitingFirstSignal, handoff_done: true, joined: false }
    );
}

#[test]
fn validity_after_joining_is_forwarded_only() {
    let (mut supervisor, _registry) = started(1);
    supervisor.on_line(br#"{"network":"192.168.1.10/24"}"#);
    let actions = supervisor.on_line(br#"{"notAfter":"2030-01-01"}"#);
    assert_eq!(
        actions,
        vec![Action::AppendLog, Action::Emit(StatusEvent::SetValid(b"2030-01-01".to_vec()))]
    );
    assert!(supervisor.state().joined);
    assert_eq!(supervisor.state().phase, Phase::Running);
}

#[test]
fn known_errors_are_shown_for_a_while() {
    let cases: [(&[u8], Warning); 3] = [
        (b"Hiper certificate for this point is expired", Warning::CredentialExpired),
        (b"Failed to open udp listener", Warning::ListenFailure),
        (b"Failed to get a tun/tap device", Warning::DriverAcquisitionFailure),
    ];
    for (code, warning) in cases {
        let (mut supervisor, _registry) = started(1);
        let event = Some(LogEvent::StructuredLog {
            level: b"error".to_vec(),
            message: b"whatever".to_vec(),
            error: code.to_vec(),
        });
        assert_eq!(
            supervisor.on_event(&event),
            vec![
                Action::AppendLog,
                Action::Emit(StatusEvent::SetWarning(Some(warning))),
                Action::Pause(WARNING_PAUSE_SECS),
                Action::Emit(StatusEvent::SetWarning(None)),
            ]
        );
        assert!(!supervisor.state().handoff_done);
    }
    assert_eq!(WARNING_PAUSE_SECS, 5);
}

#[test]
fn unknown_errors_and_other_levels_show_nothing() {
    let (mut supervisor, _registry) = started(1);
    let line = br#"{"level":"error","msg":"m","error":"something else"}"#;
    assert_eq!(supervisor.on_line(line), vec![Action::AppendLog]);
    let line = br#"{"level":"info","msg":"m","error":"Failed to open udp listener"}"#;
    assert_eq!(supervisor.on_line(line), vec![Action::AppendLog]);
    assert_eq!(classify_error(b"error", b"something else"), None);
    assert_eq!(classify_error(b"warning", b"Failed to open udp listener"), None);
    assert_eq!(classify_error(b"error", b"Failed to open udp listener"), Some(Warning::ListenFailure));
}

#[test]
fn a_known_error_does_not_undo_joining() {
    let (mut supervisor, mut registry) = started(8);
    supervisor.on_line(br#"{"network":"192.168.1.10/24"}"#);
    supervisor.on_line(br#"{"level":"error","msg":"m","error":"Failed to open udp listener"}"#);
    assert!(supervisor.state().joined);
    supervisor.on_end_of_stream(true);
    let actions = supervisor.settle(&mut registry, 8, false);
    assert_eq!(count(&actions, &Action::Emit(StatusEvent::RequestRestart)), 1);
}

#[test]
fn lines_without_event_are_only_logged() {
    let (mut supervisor, _registry) = started(1);
    assert_eq!(supervisor.on_line(b"some banner text"), vec![Action::AppendLog]);
    assert_eq!(supervisor.on_event(&None), vec![Action::AppendLog]);
    assert_eq!(supervisor.state().phase, Phase::AwaitingFirstSignal);
}

#[test]
fn end_of_stream_waits_for_the_exit() {
    let (mut supervisor, _registry) = started(1);
    assert_eq!(supervisor.on_end_of_stream(false), vec![]);
    assert_eq!(supervisor.state().phase, Phase::AwaitingFirstSignal);
    assert!(!supervisor.state().handoff_done);
    assert_eq!(supervisor.on_end_of_stream(true), vec![Action::Deliver(None)]);
    assert_eq!(supervisor.state().phase, Phase::Exited);
    assert_eq!(supervisor.on_end_of_stream(true), vec![]);
    assert_eq!(supervisor.on_line(br#"{"network":"10.0.0.5/8"}"#), vec![]);
}

#[test]
fn end_of_stream_after_delivery_delivers_nothing() {
    let (mut supervisor, _registry) = started(1);
    supervisor.on_line(br#"{"network":"192.168.1.10/24"}"#);
    assert_eq!(supervisor.on_end_of_stream(true), vec![]);
    assert_eq!(
        supervisor.state(),
        SupervisorState { phase: Phase::Exited, handoff_done: true, joined: true }
    );
}

#[test]
fn anonymous_launch_without_address_delivers_failure_and_warns_of_anonymous_mode() {
    let token = "";
    let (mut supervisor, mut registry) = started(77);
    let mut delivered: Vec<Option<Ipv4>> = Vec::new();
    let lines: [&[u8]; 3] = [
        b"starting up",
        br#"{"level":"info","msg":"handshake","error":""}"#,
        br#"{"level":"info","msg":"bye"}"#,
    ];
    for line in lines {
        for action in supervisor.on_line(line) {
            if let Action::Deliver(outcome) = action {
                delivered.push(outcome);
            }
        }
    }
    for action in supervisor.on_end_of_stream(true) {
        if let Action::Deliver(outcome) = action {
            delivered.push(outcome);
        }
    }
    assert_eq!(delivered, vec![None]);
    let shown = run_hiper_outcome(&mut registry, delivered[0], !token.is_empty());
    assert_eq!(
        shown,
        vec![
            Action::Emit(StatusEvent::SetStatusText(StatusText::Start)),
            Action::Terminate(77),
            Action::Emit(StatusEvent::SetWarning(Some(Warning::AnonymousMode))),
        ]
    );
    let warnings: Vec<&Action> = shown
        .iter()
        .filter(|a| matches!(a, Action::Emit(StatusEvent::SetWarning(_))))
        .collect();
    assert_eq!(warnings, vec![&Action::Emit(StatusEvent::SetWarning(Some(Warning::AnonymousMode)))]);
    assert!(!is_running(&registry));
    let settled = supervisor.settle(&mut registry, 77, false);
    assert_eq!(settled, vec![Action::Emit(StatusEvent::Stopped)]);
}

#[test]
fn a_crash_after_joining_asks_for_one_restart() {
    let (mut supervisor, mut registry) = started(500);
    let mut all: Vec<Action> = Vec::new();
    all.extend(supervisor.on_line(br#"{"network":"192.168.1.10/24"}"#));
    all.extend(supervisor.on_line(b"some more output"));
    all.extend(supervisor.on_end_of_stream(false));
    all.extend(supervisor.on_end_of_stream(true));
    all.extend(supervisor.settle(&mut registry, 500, false));
    assert_eq!(count(&all, &Action::Deliver(Some(ADDRESS))), 1);
    assert_eq!(count(&all, &Action::Deliver(None)), 0);
    assert_eq!(count(&all, &Action::Emit(StatusEvent::Crashed)), 1);
    assert_eq!(count(&all, &Action::Emit(StatusEvent::RequestRestart)), 1);
    assert_eq!(
        &all[all.len() - 5..],
        &[
            Action::Emit(StatusEvent::Stopped),
            Action::Emit(StatusEvent::SetWarning(Some(Warning::Crashed))),
            Action::Emit(StatusEvent::Crashed),
            Action::Pause(RESTART_DELAY_SECS),
            Action::Emit(StatusEvent::RequestRestart),
        ]
    );
    assert_eq!(RESTART_DELAY_SECS, 5);
    assert_eq!(supervisor.state().phase, Phase::CrashedAwaitingRestart);
    assert_eq!(supervisor.settle(&mut registry, 500, false), vec![]);
    assert_eq!(supervisor.on_end_of_stream(true), vec![]);
    assert_eq!(supervisor.on_line(br#"{"network":"192.168.1.10/24"}"#), vec![]);
    assert!(!registry.holds(500));
}

#[test]
fn a_clean_exit_asks_for_no_restart() {
    let (mut supervisor, mut registry) = started(500);
    supervisor.on_line(br#"{"network":"192.168.1.10/24"}"#);
    supervisor.on_end_of_stream(true);
    assert_eq!(supervisor.settle(&mut registry, 500, true), vec![Action::Emit(StatusEvent::Stopped)]);
    assert_eq!(supervisor.state().phase, Phase::Exited);
}

#[test]
fn an_exit_before_joining_asks_for_no_restart() {
    let (mut supervisor, mut registry) = started(500);
    supervisor.on_line(br#"{"notAfter":"2030"}"#);
    supervisor.on_end_of_stream(true);
    assert_eq!(supervisor.settle(&mut registry, 500, false), vec![Action::Emit(StatusEvent::Stopped)]);
    assert_eq!(supervisor.state().phase, Phase::Exited);
}

#[test]
fn a_stop_by_the_user_asks_for_no_restart() {
    let (mut supervisor, mut registry) = started(500);
    supervisor.on_line(br#"{"network":"192.168.1.10/24"}"#);
    hiper_supervisor::registry::stop_hiper_directly(&mut registry);
    supervisor.on_end_of_stream(true);
    assert_eq!(supervisor.settle(&mut registry, 500, false), vec![Action::Emit(StatusEvent::Stopped)]);
    assert_eq!(supervisor.state().phase, Phase::StoppedByUser);
    assert_eq!(supervisor.settle(&mut registry, 500, false), vec![]);
}

#[test]
fn a_newer_launch_counts_as_a_stop_of_the_older() {
    let (mut supervisor, mut registry) = started(500);
    supervisor.on_line(br#"{"network":"192.168.1.10/24"}"#);
    registry.register(501, Role::Main);
    supervisor.on_end_of_stream(true);
    assert_eq!(supervisor.settle(&mut registry, 500, false), vec![Action::Emit(StatusEvent::Stopped)]);
    assert_eq!(registry.main_pid(), 501);
}

#[test]
fn settling_before_the_exit_does_nothing_to_the_state() {
    let (mut supervisor, mut registry) = started(500);
    supervisor.on_line(br#"{"network":"192.168.1.10/24"}"#);
    assert_eq!(supervisor.settle(&mut registry, 12345, false), vec![]);
    assert_eq!(supervisor.state().phase, Phase::Joined);
    assert!(is_running(&registry));
}
