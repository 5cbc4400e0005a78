//! Single-instance coordination for a desktop application.
//!
//! A process that starts up first probes a configured loopback port. If the
//! port is free the process commits to the primary role, binds a small HTTP
//! control plane on the port (best effort) and handles runtime lifecycle
//! events. If the port is occupied the process speaks the control-plane
//! protocol to the occupant: a ping that must answer exactly `ok`, then a
//! forward of the launch intent (a deep-link payload or a plain
//! "bring to front" request), after which the process exits as a duplicate.
//! An occupant that does not answer the ping correctly is not a primary, and
//! the new process proceeds to become primary itself (fail-open).
//!
//! The crate holds the decision logic and the wire protocol; the surrounding
//! application performs the network and window-manager work and feeds the
//! outcomes back in as events.

pub mod lifecycle;
pub mod percent;
pub mod protocol;
pub mod startup;
