//! The startup state machine of one process.
//!
//! At launch the machine asks for a probe of the configured loopback port.
//! A free port commits the process to the primary role: it attempts to bind
//! the control server (best effort — a lost bind race is only logged) and
//! then runs, reacting to runtime events. An occupied port starts the
//! duplicate check: a ping to the occupant, then — only if the occupant
//! answered exactly `ok` — a best-effort forward of the launch intent,
//! after which the process exits. An occupant that answers anything else,
//! or not at all, is not a primary, and the process falls through to the
//! primary path (fail-open).
//!
//! The machine only decides; the surrounding application performs each
//! action and feeds its outcome back in as the next event.

use vstd::prelude::*;
use crate::lifecycle::{lifecycle_action, lifecycle_action_model, LifecycleAction, RuntimeEvent};
use crate::protocol::{forward_request_target, forward_target_model, ok_body};

verus! {

/// The role a process settles into, decided once at startup.
#[derive(Clone, Copy, PartialEq, Eq, Structural, Debug)]
pub enum InstanceRole {
    Primary,
    Secondary,
}

/// Where one process stands in its startup.
#[derive(Clone, Copy, PartialEq, Eq, Structural, Debug)]
pub enum StartupState {
    /// Waiting for the probe of the control port.
    ProbePort,
    /// The port was occupied; waiting for the occupant's answer to the ping.
    AwaitPing,
    /// The occupant is a live primary; waiting for the forward to finish.
    AwaitForward,
    /// Committed to the primary role; waiting for the control-server bind.
    Binding,
    /// The primary is up and reacts to runtime events.
    Running,
    /// Terminal: the process exited as a confirmed duplicate.
    Exited,
}

/// The outcome of one action, fed back into the machine.
pub enum StartupEvent {
    /// Whether a listener is demonstrably bound to the control port.
    /// An inconclusive probe reports the port free.
    ProbeResult { occupied: bool },
    /// The body the occupant answered to the ping with, or nothing on a
    /// timeout or connection error.
    PingReply { body: Option<Vec<u8>> },
    /// Whether the best-effort forward request went through.
    ForwardDone { delivered: bool },
    /// Whether the control server took the port.
    BindResult { bound: bool },
    /// An event of the application runtime, seen while running.
    Runtime { event: RuntimeEvent },
}

/// What the surrounding application must do next.
pub enum StartupAction {
    /// Issue the ping to the occupant of the control port, with a bounded
    /// timeout.
    SendPing,
    /// Issue the forward request with this target; failures are swallowed.
    SendForward { target: Vec<u8> },
    /// Attempt to bind the control server on the port; a failure is only
    /// logged.
    AttemptBind,
    /// Serve the control plane and hand runtime events to the machine.
    RunAsPrimary,
    /// Terminate the process: a primary already runs and took the intent.
    ExitProcess,
    /// React to a runtime event as the lifecycle decision says.
    Lifecycle { action: LifecycleAction },
}

/// Whether the occupant's answer confirms a live primary: a reply whose
/// body is exactly `ok`.
pub open spec fn ping_confirms(body: Option<Vec<u8>>) -> bool {
    match body {
        Some(b) => b@ == ok_body(),
        None => false,
    }
}

/// Which events can answer the pending action of each state.
pub open spec fn event_fits(state: StartupState, event: StartupEvent) -> bool {
    match (state, event) {
        (StartupState::ProbePort, StartupEvent::ProbeResult { .. }) => true,
        (StartupState::AwaitPing, StartupEvent::PingReply { .. }) => true,
        (StartupState::AwaitForward, StartupEvent::ForwardDone { .. }) => true,
        (StartupState::Binding, StartupEvent::BindResult { .. }) => true,
        (StartupState::Running, StartupEvent::Runtime { .. }) => true,
        _ => false,
    }
}

/// The state after one event: an occupied port leads into the duplicate
/// check and a free one to the primary path; a confirming ping leads to the
/// forward and any other reply to the primary path; a finished forward —
/// delivered or not — exits; a bind outcome — won or lost — runs; a running
/// primary keeps running, whatever the runtime reports.
pub open spec fn next_state(state: StartupState, event: StartupEvent) -> StartupState {
    match (state, event) {
        (StartupState::ProbePort, StartupEvent::ProbeResult { occupied }) => if occupied {
            StartupState::AwaitPing
        } else {
            StartupState::Binding
        },
        (StartupState::AwaitPing, StartupEvent::PingReply { body }) => if ping_confirms(body) {
            StartupState::AwaitForward
        } else {
            StartupState::Binding
        },
        (StartupState::AwaitForward, StartupEvent::ForwardDone { .. }) => StartupState::Exited,
        (StartupState::Binding, StartupEvent::BindResult { .. }) => StartupState::Running,
        (StartupState::Running, StartupEvent::Runtime { .. }) => StartupState::Running,
        _ => state,
    }
}

/// The role a state has settled on, if it has: every state past the ping is
/// decided — the duplicate path is Secondary, the primary path Primary.
pub open spec fn role_of(state: StartupState) -> Option<InstanceRole> {
    match state {
        StartupState::ProbePort => None,
        StartupState::AwaitPing => None,
        StartupState::AwaitForward => Some(InstanceRole::Secondary),
        StartupState::Exited => Some(InstanceRole::Secondary),
        StartupState::Binding => Some(InstanceRole::Primary),
        StartupState::Running => Some(InstanceRole::Primary),
    }
}

/// What the action answered to an event must be, given the machine's launch
/// arguments.
pub open spec fn action_fits(
    state: StartupState,
    event: StartupEvent,
    args: Seq<Seq<u8>>,
    action: StartupAction,
) -> bool {
    match (state, event) {
        (StartupState::ProbePort, StartupEvent::ProbeResult { occupied }) => if occupied {
            action is SendPing
        } else {
            action is AttemptBind
        },
        (StartupState::AwaitPing, StartupEvent::PingReply { body }) => if ping_confirms(body) {
            action matches StartupAction::SendForward { target } && target@ == forward_target_model(
                args,
            )
        } else {
            action is AttemptBind
        },
        (StartupState::AwaitForward, StartupEvent::ForwardDone { .. }) => action is ExitProcess,
        (StartupState::Binding, StartupEvent::BindResult { .. }) => action is RunAsPrimary,
        (StartupState::Running, StartupEvent::Runtime { event }) => action
            matches StartupAction::Lifecycle { action: a } && a == lifecycle_action_model(event),
        _ => false,
    }
}

/// The startup machine of one process: the configured control port, the
/// process's launch arguments, and where the startup stands.
pub struct StartupMachine {
    pub port: u16,
    pub args: Vec<Vec<u8>>,
    pub state: StartupState,
}

impl StartupMachine {
    /// A machine at the start of launch, before the port probe.
    pub fn new(port: u16, args: Vec<Vec<u8>>) -> (m: StartupMachine)
        ensures
            m.port == port,
            m.args == args,
            m.state == StartupState::ProbePort,
    {
        StartupMachine { port, args, state: StartupState::ProbePort }
    }

    /// The role this machine has settled on, if its state has decided one.
    pub fn settled_role(&self) -> (r: Option<InstanceRole>)
        ensures
            r == role_of(self.state),
    {
        match self.state {
            StartupState::ProbePort => None,
            StartupState::AwaitPing => None,
            StartupState::AwaitForward => Some(InstanceRole::Secondary),
            StartupState::Exited => Some(InstanceRole::Secondary),
            StartupState::Binding => Some(InstanceRole::Primary),
            StartupState::Running => Some(InstanceRole::Primary),
        }
    }

    /// Feed one event in and learn what to do next. The port and the launch
    /// arguments never change; the state moves exactly as `next_state`
    /// says, and the action is the one `action_fits` owes to the event.
    pub fn step(&mut self, event: StartupEvent) -> (action: StartupAction)
        requires
            event_fits(old(self).state, event),
        ensures
            final(self).port == old(self).port,
            final(self).args == old(self).args,
            final(self).state == next_state(old(self).state, event),
            action_fits(old(self).state, event, old(self).args.deep_view(), action),
    {
        match event {
            StartupEvent::ProbeResult { occupied } => {
                if occupied {
                    self.state = StartupState::AwaitPing;
                    StartupAction::SendPing
                } else {
                    self.state = StartupState::Binding;
                    StartupAction::AttemptBind
                }
            },
            StartupEvent::PingReply { body } => {
                let confirmed = match &body {
                    Some(b) => crate::protocol::is_ok_body(b),
                    None => false,
                };
                if confirmed {
                    self.state = StartupState::AwaitForward;
                    let target = forward_request_target(&self.args);
                    StartupAction::SendForward { target }
                } else {
                    self.state = StartupState::Binding;
                    StartupAction::AttemptBind
                }
            },
            StartupEvent::ForwardDone { .. } => {
                self.state = StartupState::Exited;
                StartupAction::ExitProcess
            },
            StartupEvent::BindResult { .. } => {
                self.state = StartupState::Running;
                StartupAction::RunAsPrimary
            },
            StartupEvent::Runtime { event } => {
                let action = lifecycle_action(&event);
                StartupAction::Lifecycle { action }
            },
        }
    }
}

/// Law: fail-open — an occupant that answers the ping with anything but
/// `ok`, or not at all, does not stop the launch: the machine moves to the
/// primary path, the only action fitting that move is the control-server
/// bind attempt, and the bind's outcome either way leaves the process
/// running as primary.
pub proof fn lemma_fail_open(
    body: Option<Vec<u8>>,
    bound: bool,
    args: Seq<Seq<u8>>,
    action: StartupAction,
)
    requires
        !ping_confirms(body),
        action_fits(StartupState::AwaitPing, StartupEvent::PingReply { body }, args, action),
    ensures
        next_state(StartupState::AwaitPing, StartupEvent::PingReply { body })
            == StartupState::Binding,
        action is AttemptBind,
        next_state(StartupState::Binding, StartupEvent::BindResult { bound })
            == StartupState::Running,
{
}

/// Law: an exit request seen while running never ends the process — the
/// machine stays in Running and the only fitting action suppresses the
/// runtime's default termination.
pub proof fn lemma_exit_suppressed(args: Seq<Seq<u8>>, action: StartupAction)
    requires
        action_fits(
            StartupState::Running,
            StartupEvent::Runtime { event: RuntimeEvent::ExitRequested },
            args,
            action,
        ),
    ensures
        next_state(StartupState::Running, StartupEvent::Runtime { event: RuntimeEvent::ExitRequested })
            == StartupState::Running,
        action == (StartupAction::Lifecycle { action: LifecycleAction::SuppressExit }),
{
}

/// The role one launch settles on under given conditions: a duplicate —
/// Secondary — exactly when the port was occupied and the occupant answered
/// the ping with `ok`; Primary otherwise, the fail-open path included.
pub open spec fn launch_role(occupied: bool, ping_ok: bool) -> InstanceRole {
    if occupied && ping_ok {
        InstanceRole::Secondary
    } else {
        InstanceRole::Primary
    }
}

/// Law: a full launch drives the machine to the role `launch_role` names.
/// A free port, or an occupant that does not answer `ok`, ends in Running —
/// the full primary path, bind attempt included; an occupied port with a
/// confirming occupant ends in Exited, whether or not the forward was
/// delivered.
pub proof fn lemma_launch_reaches_role(occupied: bool, body: Option<Vec<u8>>, delivered: bool, bound: bool)
    ensures
        ({
            let s1 = next_state(StartupState::ProbePort, StartupEvent::ProbeResult { occupied });
            let s2 = if occupied {
                next_state(s1, StartupEvent::PingReply { body })
            } else {
                s1
            };
            let s3 = if occupied && ping_confirms(body) {
                next_state(s2, StartupEvent::ForwardDone { delivered })
            } else {
                next_state(s2, StartupEvent::BindResult { bound })
            };
            role_of(s3) == Some(launch_role(occupied, ping_confirms(body)))
                && (launch_role(occupied, ping_confirms(body)) is Primary ==> s3
                == StartupState::Running) && (launch_role(occupied, ping_confirms(body))
                is Secondary ==> s3 == StartupState::Exited)
        }),
{
}

/// Law: of any number of launches that probe the port in turn with no prior
/// primary, the first becomes primary and every later one exits as a
/// duplicate — provided the port reports occupied exactly when an earlier
/// launch became primary, and a genuine primary answers the ping with `ok`.
/// A probe or bind race between launches breaks the first premise and is a
/// known, documented window, not covered here.
pub proof fn lemma_exactly_one_primary(occupied: Seq<bool>, ping_ok: Seq<bool>)
    requires
        occupied.len() == ping_ok.len(),
        occupied.len() > 0,
        forall|i: int|
            0 <= i < occupied.len() ==> occupied[i] == exists|j: int|
                0 <= j < i && launch_role(occupied[j], ping_ok[j]) is Primary,
        forall|i: int| 0 <= i < occupied.len() && occupied[i] ==> ping_ok[i],
    ensures
        launch_role(occupied[0], ping_ok[0]) is Primary,
        forall|i: int| 1 <= i < occupied.len() ==> launch_role(occupied[i], ping_ok[i]) is Secondary,
{
    assert(!occupied[0]);
    assert forall|i: int| 1 <= i < occupied.len() implies launch_role(
        occupied[i],
        ping_ok[i],
    ) is Secondary by {
        assert(launch_role(occupied[0], ping_ok[0]) is Primary);
        assert(occupied[i]);
    }
}

} // verus!
