use singleton_core::lifecycle::{
    lifecycle_action, LifecycleAction, RuntimeEvent, WindowEventKind, WindowGeometry,
};
use singleton_core::startup::{StartupAction, StartupEvent, StartupMachine, StartupState};

fn main_window(kind: WindowEventKind) -> RuntimeEvent {
    RuntimeEvent::Window { label: b"main".to_vec(), kind }
}

#[test]
fn exit_requests_are_suppressed() {
    assert_eq!(
        lifecycle_action(&RuntimeEvent::ExitRequested),
        LifecycleAction::SuppressExit
    );
}

#[test]
fn exit_request_while_running_keeps_the_process_alive() {
    let mut m = StartupMachine::new(33331, vec![b"app".to_vec()]);
    m.step(StartupEvent::ProbeResult { occupied: false });
    m.step(StartupEvent::BindResult { bound: true });
    assert_eq!(m.state, StartupState::Running);
    let a = m.step(StartupEvent::Runtime { event: RuntimeEvent::ExitRequested });
    assert!(matches!(
        a,
        StartupAction::Lifecycle { action: LifecycleAction::SuppressExit }
    ));
    assert_eq!(m.state, StartupState::Running);
}

#[test]
fn main_window_moves_and_resizes_write_geometry_unforced() {
    assert_eq!(
        lifecycle_action(&main_window(WindowEventKind::Moved)),
        LifecycleAction::PersistGeometry { forced: false }
    );
    assert_eq!(
        lifecycle_action(&main_window(WindowEventKind::Resized)),
        LifecycleAction::PersistGeometry { forced: false }
    );
}

#[test]
fn main_window_destroy_and_close_write_geometry_forced() {
    assert_eq!(
        lifecycle_action(&main_window(WindowEventKind::Destroyed)),
        LifecycleAction::PersistGeometry { forced: true }
    );
    assert_eq!(
        lifecycle_action(&main_window(WindowEventKind::CloseRequested)),
        LifecycleAction::PersistGeometry { forced: true }
    );
}

#[test]
fn other_windows_and_other_events_write_nothing() {
    let other = RuntimeEvent::Window {
        label: b"settings".to_vec(),
        kind: WindowEventKind::Destroyed,
    };
    assert_eq!(lifecycle_action(&other), LifecycleAction::Ignore);
    let moved = RuntimeEvent::Window { label: b"Main".to_vec(), kind: WindowEventKind::Moved };
    assert_eq!(lifecycle_action(&moved), LifecycleAction::Ignore);
    assert_eq!(
        lifecycle_action(&main_window(WindowEventKind::Other)),
        LifecycleAction::Ignore
    );
    assert_eq!(lifecycle_action(&RuntimeEvent::Other), LifecycleAction::Ignore);
}

#[test]
fn window_geometry_holds_its_fields() {
    let g = WindowGeometry { x: -4, y: 30, width: 1280, height: 720, maximized: false };
    let copy = g;
    assert_eq!(g, copy);
    assert_eq!(g.x, -4);
    assert_eq!(g.y, 30);
    assert_eq!(g.width, 1280);
    assert_eq!(g.height, 720);
    assert!(!g.maximized);
}
