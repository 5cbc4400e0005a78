//! Lifecycle decisions of the primary instance.
//!
//! The primary subscribes to the application runtime's events and reacts to
//! exactly two kinds: an exit request, whose default termination is
//! suppressed, and events on the single main window, which trigger
//! persistence of the window's placement. Every other event is ignored.

use vstd::prelude::*;

verus! {

/// Persisted placement of the single main window.
#[derive(Clone, Copy, PartialEq, Eq, Structural, Debug)]
pub struct WindowGeometry {
    pub x: i32,
    pub y: i32,
    pub width: u32,
    pub height: u32,
    pub maximized: bool,
}

/// What can happen to one window, as reported by the runtime.
#[derive(Clone, Copy, PartialEq, Eq, Structural, Debug)]
pub enum WindowEventKind {
    Destroyed,
    CloseRequested,
    Moved,
    Resized,
    Other,
}

/// One event from the application runtime. Window events carry the label of
/// the window they concern; only the main window matters here.
pub enum RuntimeEvent {
    ExitRequested,
    Window { label: Vec<u8>, kind: WindowEventKind },
    Other,
}

/// What the primary does in reaction to a runtime event.
#[derive(Clone, Copy, PartialEq, Eq, Structural, Debug)]
pub enum LifecycleAction {
    /// Keep the process alive: the runtime's default termination is suppressed.
    SuppressExit,
    /// Write the main window's geometry to the persistence collaborator.
    /// A forced write happens at once; an unforced one may be debounced.
    PersistGeometry { forced: bool },
    /// Nothing to do.
    Ignore,
}

/// The label of the single main window.
pub open spec fn main_label() -> Seq<u8> {
    seq![('m' as u8), ('a' as u8), ('i' as u8), ('n' as u8)]
}

/// The reaction the primary owes to each runtime event: suppress exit
/// requests, persist geometry on main-window placement events (forced on
/// destroy and close, unforced on move and resize), ignore everything else.
pub open spec fn lifecycle_action_model(e: RuntimeEvent) -> LifecycleAction {
    match e {
        RuntimeEvent::ExitRequested => LifecycleAction::SuppressExit,
        RuntimeEvent::Window { label, kind } => if label@ == main_label() {
            match kind {
                WindowEventKind::Destroyed => LifecycleAction::PersistGeometry { forced: true },
                WindowEventKind::CloseRequested => LifecycleAction::PersistGeometry {
                    forced: true,
                },
                WindowEventKind::Moved => LifecycleAction::PersistGeometry { forced: false },
                WindowEventKind::Resized => LifecycleAction::PersistGeometry { forced: false },
                WindowEventKind::Other => LifecycleAction::Ignore,
            }
        } else {
            LifecycleAction::Ignore
        },
        RuntimeEvent::Other => LifecycleAction::Ignore,
    }
}

/// Decide the reaction to one runtime event. Exit requests are always
/// suppressed; geometry is written only for the main window, forced exactly
/// on destroy and close-request.
pub fn lifecycle_action(e: &RuntimeEvent) -> (a: LifecycleAction)
    ensures
        a == lifecycle_action_model(*e),
{
    match e {
        RuntimeEvent::ExitRequested => LifecycleAction::SuppressExit,
        RuntimeEvent::Window { label, kind } => {
            if is_main_label(label) {
                match kind {
                    WindowEventKind::Destroyed => LifecycleAction::PersistGeometry {
                        forced: true,
                    },
                    WindowEventKind::CloseRequested => LifecycleAction::PersistGeometry {
                        forced: true,
                    },
                    WindowEventKind::Moved => LifecycleAction::PersistGeometry { forced: false },
                    WindowEventKind::Resized => LifecycleAction::PersistGeometry {
                        forced: false,
                    },
                    WindowEventKind::Other => LifecycleAction::Ignore,
                }
            } else {
                LifecycleAction::Ignore
            }
        },
        RuntimeEvent::Other => LifecycleAction::Ignore,
    }
}

/// Law: placement events on the main window write geometry with exactly
/// the owed urgency — unforced for move and resize, forced for destroy and
/// close-request — and an event on any other window writes nothing.
pub proof fn lemma_geometry_writes(label: Vec<u8>, kind: WindowEventKind)
    ensures
        label@ == main_label() && (kind == WindowEventKind::Moved || kind
            == WindowEventKind::Resized) ==> lifecycle_action_model(
            RuntimeEvent::Window { label, kind },
        ) == (LifecycleAction::PersistGeometry { forced: false }),
        label@ == main_label() && (kind == WindowEventKind::Destroyed || kind
            == WindowEventKind::CloseRequested) ==> lifecycle_action_model(
            RuntimeEvent::Window { label, kind },
        ) == (LifecycleAction::PersistGeometry { forced: true }),
        label@ != main_label() ==> lifecycle_action_model(RuntimeEvent::Window { label, kind })
            == LifecycleAction::Ignore,
{
}

/// Whether a window label names the main window.
fn is_main_label(label: &Vec<u8>) -> (r: bool)
    ensures
        r == (label@ == main_label()),
{
    if label.len() != 4 {
        proof {
            assert(label@ != main_label());
        }
        return false;
    }
    let r = label[0] == ('m' as u8) && label[1] == ('a' as u8) && label[2] == ('i' as u8) && label[3] == ('n' as u8);
    proof {
        if r {
            assert(label@ =~= main_label());
        } else {
            assert(label@ != main_label());
        }
    }
    r
}

} // verus!
