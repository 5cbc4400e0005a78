use singleton_core::protocol::{parse_request_target, ControlCommand};
use singleton_core::startup::{
    InstanceRole, StartupAction, StartupEvent, StartupMachine, StartupState,
};

#[test]
fn secondary_with_payload_forwards_the_scheme_and_exits() {
    let args = vec![b"app".to_vec(), b"myscheme://open?x=1".to_vec()];
    let mut m = StartupMachine::new(33331, args);

    let a1 = m.step(StartupEvent::ProbeResult { occupied: true });
    assert!(matches!(a1, StartupAction::SendPing));
    assert_eq!(m.state, StartupState::AwaitPing);

    let a2 = m.step(StartupEvent::PingReply { body: Some(b"ok".to_vec()) });
    let target = match a2 {
        StartupAction::SendForward { target } => target,
        _ => panic!("a confirmed primary must be forwarded to"),
    };
    assert_eq!(
        target,
        b"/commands/scheme?param=myscheme%3A%2F%2Fopen%3Fx%3D1".to_vec()
    );
    // The primary's server reads the forward back to the exact payload.
    match parse_request_target(&target) {
        Some(ControlCommand::HandleScheme { payload }) => {
            assert_eq!(payload, b"myscheme://open?x=1".to_vec())
        },
        _ => panic!("the forwarded target must reach the scheme resolver"),
    }

    let a3 = m.step(StartupEvent::ForwardDone { delivered: true });
    assert!(matches!(a3, StartupAction::ExitProcess));
    assert_eq!(m.state, StartupState::Exited);
    assert_eq!(m.settled_role(), Some(InstanceRole::Secondary));
}

#[test]
fn secondary_without_payload_asks_for_the_window_and_exits() {
    let args = vec![b"app".to_vec()];
    let mut m = StartupMachine::new(33331, args);

    m.step(StartupEvent::ProbeResult { occupied: true });
    let a = m.step(StartupEvent::PingReply { body: Some(b"ok".to_vec()) });
    let target = match a {
        StartupAction::SendForward { target } => target,
        _ => panic!("a confirmed primary must be forwarded to"),
    };
    assert_eq!(target, b"/commands/visible".to_vec());
    assert!(matches!(
        parse_request_target(&target),
        Some(ControlCommand::ShowVisible)
    ));

    let a2 = m.step(StartupEvent::ForwardDone { delivered: false });
    assert!(matches!(a2, StartupAction::ExitProcess));
    assert_eq!(m.state, StartupState::Exited);
    assert_eq!(m.settled_role(), Some(InstanceRole::Secondary));
}

#[test]
fn wrong_ping_body_falls_open_to_full_primary_startup() {
    let mut m = StartupMachine::new(33331, vec![b"app".to_vec()]);
    m.step(StartupEvent::ProbeResult { occupied: true });
    let a = m.step(StartupEvent::PingReply { body: Some(b"not-ok".to_vec()) });
    assert!(matches!(a, StartupAction::AttemptBind));
    assert_eq!(m.state, StartupState::Binding);
    let a2 = m.step(StartupEvent::BindResult { bound: true });
    assert!(matches!(a2, StartupAction::RunAsPrimary));
    assert_eq!(m.state, StartupState::Running);
    assert_eq!(m.settled_role(), Some(InstanceRole::Primary));
}

#[test]
fn ping_timeout_falls_open_to_full_primary_startup() {
    let mut m = StartupMachine::new(33331, vec![b"app".to_vec()]);
    m.step(StartupEvent::ProbeResult { occupied: true });
    let a = m.step(StartupEvent::PingReply { body: None });
    assert!(matches!(a, StartupAction::AttemptBind));
    let a2 = m.step(StartupEvent::BindResult { bound: true });
    assert!(matches!(a2, StartupAction::RunAsPrimary));
    assert_eq!(m.settled_role(), Some(InstanceRole::Primary));
}

#[test]
fn free_port_commits_to_primary() {
    let mut m = StartupMachine::new(33331, vec![b"app".to_vec()]);
    let a = m.step(StartupEvent::ProbeResult { occupied: false });
    assert!(matches!(a, StartupAction::AttemptBind));
    assert_eq!(m.state, StartupState::Binding);
    let a2 = m.step(StartupEvent::BindResult { bound: true });
    assert!(matches!(a2, StartupAction::RunAsPrimary));
    assert_eq!(m.settled_role(), Some(InstanceRole::Primary));
}

#[test]
fn lost_bind_race_still_runs_as_primary() {
    let mut m = StartupMachine::new(33331, vec![b"app".to_vec()]);
    m.step(StartupEvent::ProbeResult { occupied: false });
    let a = m.step(StartupEvent::BindResult { bound: false });
    assert!(matches!(a, StartupAction::RunAsPrimary));
    assert_eq!(m.state, StartupState::Running);
    assert_eq!(m.settled_role(), Some(InstanceRole::Primary));
}

#[test]
fn of_two_launches_exactly_one_ends_primary() {
    // First launch: no prior primary, the port probes free.
    let mut first = StartupMachine::new(33331, vec![b"app".to_vec()]);
    first.step(StartupEvent::ProbeResult { occupied: false });
    first.step(StartupEvent::BindResult { bound: true });
    assert_eq!(first.settled_role(), Some(InstanceRole::Primary));

    // Second launch: the first occupies the port and answers the ping.
    let mut second = StartupMachine::new(33331, vec![b"app".to_vec()]);
    second.step(StartupEvent::ProbeResult { occupied: true });
    second.step(StartupEvent::PingReply { body: Some(b"ok".to_vec()) });
    second.step(StartupEvent::ForwardDone { delivered: true });
    assert_eq!(second.settled_role(), Some(InstanceRole::Secondary));
    assert_eq!(second.state, StartupState::Exited);
    assert_eq!(first.state, StartupState::Running);
}
