//! Supervision state for the sidecar backend process.
//!
//! The supervisor owns two pieces of mutable state: the port registry,
//! a single cell holding the backend's announced port (0 while unknown),
//! and a flag recording whether the child process handle is still held.
//! The log watcher drives this state with one call per stream event; the
//! surrounding application performs the actual process I/O and event
//! broadcast, and serialises access to the state behind its own lock.

use vstd::prelude::*;
use crate::parser::{contains_marker, handshake_port, parse_handshake_line};

verus! {

/// The shared cell that holds the backend's port. 0 means the handshake
/// has not happened yet and callers must treat the backend as not ready.
pub struct PortRegistry {
    pub value: u16,
}

impl PortRegistry {
    /// A fresh registry, before any handshake: the port reads as 0.
    pub fn new() -> (r: Self)
        ensures
            r.value == 0,
    {
        PortRegistry { value: 0 }
    }

    /// The query operation of the command surface: the stored port.
    pub fn read(&self) -> (p: u16)
        ensures
            p == self.value,
    {
        self.value
    }

    /// Overwrites the stored port with a freshly parsed one.
    pub fn write(&mut self, p: u16)
        ensures
            final(self).value == p,
    {
        self.value = p;
    }
}

/// One event of the child's output stream, in the order the stream
/// yields them: an output line, an error line, a stream error, or the
/// process's termination with its exit code.
pub enum StreamEvent {
    Stdout(Vec<u8>),
    Stderr(Vec<u8>),
    StreamError(Vec<u8>),
    Terminated(Option<i32>),
}

/// The supervisor's mutable state: the port registry and whether the
/// child process handle is still held.
pub struct Supervisor {
    pub registry: PortRegistry,
    pub child_present: bool,
}

/// What one stream event does to the supervisor: the next state, and the
/// port to broadcast if the event was a successful handshake line.
/// Stderr lines and stream errors are logged only; termination drops the
/// child handle; a stdout line updates the registry exactly when it is a
/// handshake line announcing a nonzero port. A line announcing port 0 is
/// treated like a parse miss: 0 is the registry's "not yet known"
/// sentinel, so once the registry is nonzero it is never reset to 0.
pub open spec fn step_spec(s: Supervisor, ev: StreamEvent) -> (Supervisor, Option<u16>) {
    match ev {
        StreamEvent::Stdout(line) => match handshake_port(line@) {
            Some(p) => if p != 0 {
                (
                    Supervisor {
                        registry: PortRegistry { value: p },
                        child_present: s.child_present,
                    },
                    Some(p),
                )
            } else {
                (s, None)
            },
            None => (s, None),
        },
        StreamEvent::Stderr(_) => (s, None),
        StreamEvent::StreamError(_) => (s, None),
        StreamEvent::Terminated(_) => (
            Supervisor { registry: s.registry, child_present: false },
            None,
        ),
    }
}

impl Supervisor {
    /// The state at application setup: port unknown, child just spawned.
    pub fn new() -> (r: Self)
        ensures
            r.registry.value == 0,
            r.child_present == true,
    {
        Supervisor { registry: PortRegistry::new(), child_present: true }
    }

    /// Consumes one stream event: the watcher loop's whole decision.
    /// Returns the port to broadcast when the event was a handshake line
    /// announcing a nonzero port; the caller emits the notification after
    /// this call returns, so the registry write happens-before the
    /// broadcast.
    pub fn handle_event(&mut self, ev: StreamEvent) -> (emit: Option<u16>)
        ensures
            *final(self) == step_spec(*old(self), ev).0,
            emit == step_spec(*old(self), ev).1,
    {
        match ev {
            StreamEvent::Stdout(line) => {
                match parse_handshake_line(line.as_slice()) {
                    Some(p) => {
                        if p != 0 {
                            self.registry.write(p);
                            Some(p)
                        } else {
                            None
                        }
                    },
                    None => None,
                }
            },
            StreamEvent::Stderr(_) => None,
            StreamEvent::StreamError(_) => None,
            StreamEvent::Terminated(_) => {
                self.child_present = false;
                None
            },
        }
    }
}

/// The state after a whole prefix of the stream has been consumed.
pub open spec fn run_events(s: Supervisor, evs: Seq<StreamEvent>) -> Supervisor
    decreases evs.len(),
{
    if evs.len() == 0 {
        s
    } else {
        run_events(step_spec(s, evs[0]).0, evs.subrange(1, evs.len() as int))
    }
}

/// A stdout line without the `SERVER_PORT=` marker leaves the whole
/// supervisor state unchanged and broadcasts nothing.
pub proof fn lemma_no_marker_no_update(s: Supervisor, line: Vec<u8>)
    requires
        !contains_marker(line@),
    ensures
        step_spec(s, StreamEvent::Stdout(line)).0 == s,
        step_spec(s, StreamEvent::Stdout(line)).1 is None,
{
}

/// A marker line whose port text does not parse is swallowed: state
/// unchanged, nothing broadcast.
pub proof fn lemma_bad_number_no_update(s: Supervisor, line: Vec<u8>)
    requires
        handshake_port(line@) is None,
    ensures
        step_spec(s, StreamEvent::Stdout(line)).0 == s,
        step_spec(s, StreamEvent::Stdout(line)).1 is None,
{
}

/// A line announcing port 0 is swallowed like a parse miss: 0 is the
/// registry's "not yet known" sentinel and is never written or broadcast.
pub proof fn lemma_port_zero_is_ignored(s: Supervisor, line: Vec<u8>)
    requires
        handshake_port(line@) == Some(0u16),
    ensures
        step_spec(s, StreamEvent::Stdout(line)).0 == s,
        step_spec(s, StreamEvent::Stdout(line)).1 is None,
{
}

/// A handshake line announcing a nonzero port `p` writes `p` to the
/// registry and broadcasts exactly that port; the child handle is
/// untouched.
pub proof fn lemma_handshake_updates_and_emits(s: Supervisor, line: Vec<u8>, p: u16)
    requires
        handshake_port(line@) == Some(p),
        p != 0,
    ensures
        step_spec(s, StreamEvent::Stdout(line)).0.registry.value == p,
        step_spec(s, StreamEvent::Stdout(line)).0.child_present == s.child_present,
        step_spec(s, StreamEvent::Stdout(line)).1 == Some(p),
{
}

/// The event announces no usable (nonzero) port: consuming it cannot
/// change the registry.
pub open spec fn no_handshake(ev: StreamEvent) -> bool {
    ev matches StreamEvent::Stdout(line) ==> (handshake_port(line@) is None || handshake_port(
        line@,
    ) == Some(0u16))
}

/// Until some stdout line is a handshake line, the registry keeps its
/// value; started at 0, it therefore reads 0 before any handshake.
pub proof fn lemma_port_unchanged_before_handshake(s: Supervisor, evs: Seq<StreamEvent>)
    requires
        forall|i: int| 0 <= i < evs.len() ==> no_handshake(#[trigger] evs[i]),
    ensures
        run_events(s, evs).registry == s.registry,
    decreases evs.len(),
{
    if evs.len() > 0 {
        let s1 = step_spec(s, evs[0]).0;
        assert(s1.registry == s.registry);
        let rest = evs.subrange(1, evs.len() as int);
        assert(forall|i: int| 0 <= i < rest.len() ==> no_handshake(#[trigger] rest[i])) by {
            assert(forall|i: int| 0 <= i < rest.len() ==> rest[i] == evs[i + 1]);
        }
        lemma_port_unchanged_before_handshake(s1, rest);
    }
}

/// Once the handshake has set a nonzero port, no stream event whatever
/// resets the registry to 0 while the supervisor lives.
pub proof fn lemma_nonzero_port_is_stable(s: Supervisor, ev: StreamEvent)
    requires
        s.registry.value != 0,
    ensures
        step_spec(s, ev).0.registry.value != 0,
{
}

/// A termination event drops the child handle, and observing termination
/// twice is idempotent: the second event changes nothing at all.
pub proof fn lemma_termination_clears_child(s: Supervisor, c1: Option<i32>, c2: Option<i32>)
    ensures
        step_spec(s, StreamEvent::Terminated(c1)).0.child_present == false,
        step_spec(s, StreamEvent::Terminated(c1)).0.registry == s.registry,
        step_spec(step_spec(s, StreamEvent::Terminated(c1)).0, StreamEvent::Terminated(c2)).0
            == step_spec(s, StreamEvent::Terminated(c1)).0,
{
}

} // verus!
