//! The heartbeat/shutdown coordinator.
//!
//! A dead-man's-switch diagnostic: on every timer tick the coordinator
//! emits one `Error`-severity record with a fixed marker, so an alerting
//! path watching for errors is exercised even when nothing is wrong. The
//! shared shutdown signal fires once, is observed by every waiter, and
//! stops the coordinator for good. The caller owns the timer and the
//! select loop; it feeds ticks and the shutdown observation in here.

use crate::bytes::bytes_of_str;
use crate::record::{header_field_ok, LogRecord, RecordShape};
use crate::severity::Severity;
use vstd::prelude::*;

verus! {

/// The fire-once, observe-many cancellation event. Firing it again is a
/// no-op; once fired it stays fired for the rest of the process.
pub struct ShutdownSignal {
    pub fired: bool,
}

/// The signal after one `fire`: fired, whatever it was before.
pub open spec fn fire_spec(s: ShutdownSignal) -> ShutdownSignal {
    ShutdownSignal { fired: true }
}

impl ShutdownSignal {
    /// A signal that has not fired.
    pub fn new() -> (r: ShutdownSignal)
        ensures
            !r.fired,
    {
        ShutdownSignal { fired: false }
    }

    /// Fires the signal. Idempotent: see `lemma_fire_idempotent`.
    pub fn fire(&mut self)
        ensures
            *final(self) == fire_spec(*old(self)),
    {
        self.fired = true;
    }

    /// Whether the signal has fired; true for every observer from the
    /// moment it fires, including ones that first look afterwards.
    pub fn is_fired(&self) -> (r: bool)
        ensures
            r == self.fired,
    {
        self.fired
    }
}

/// Firing the signal twice has the same effect as firing it once, and a
/// fired signal stays fired.
pub proof fn lemma_fire_idempotent(s: ShutdownSignal)
    ensures
        fire_spec(fire_spec(s)) == fire_spec(s),
        fire_spec(s).fired,
{
}

/// What the coordinator's select loop can observe: a timer tick, or the
/// shutdown signal having fired.
#[derive(Clone, Copy, PartialEq, Eq, Structural, Debug)]
pub enum HeartbeatEvent {
    Tick,
    Shutdown,
}

/// The marker message every heartbeat record carries.
pub open spec fn heartbeat_marker() -> Seq<u8> {
    bytes_of_str("HEARTBEAT - not a real error - HEARTBEAT"@)
}

/// The heartbeat task's state: where its records claim to come from, how
/// many it has emitted, and whether shutdown has been observed.
pub struct HeartbeatCoordinator {
    pub machine_name: Vec<u8>,
    pub container_name: Vec<u8>,
    pub beats: u64,
    pub stopped: bool,
}

/// One step of the coordinator: the next state, and whether this step
/// emits a heartbeat record. A tick before shutdown emits; a tick after
/// shutdown emits nothing; observing shutdown stops the task for good.
pub open spec fn hb_step(c: HeartbeatCoordinator, ev: HeartbeatEvent) -> (
    HeartbeatCoordinator,
    bool,
) {
    match ev {
        HeartbeatEvent::Shutdown => (
            HeartbeatCoordinator {
                machine_name: c.machine_name,
                container_name: c.container_name,
                beats: c.beats,
                stopped: true,
            },
            false,
        ),
        HeartbeatEvent::Tick => if c.stopped {
            (c, false)
        } else {
            (
                HeartbeatCoordinator {
                    machine_name: c.machine_name,
                    container_name: c.container_name,
                    beats: (c.beats + 1) as u64,
                    stopped: c.stopped,
                },
                true,
            )
        },
    }
}

/// Runs the coordinator over a whole observed event sequence: the final
/// state, and how many heartbeat records were emitted.
pub open spec fn hb_run(c: HeartbeatCoordinator, events: Seq<HeartbeatEvent>) -> (
    HeartbeatCoordinator,
    nat,
)
    decreases events.len(),
{
    if events.len() == 0 {
        (c, 0)
    } else {
        let step = hb_step(c, events[0]);
        let rest = hb_run(step.0, events.skip(1));
        (rest.0, rest.1 + if step.1 {
            1nat
        } else {
            0nat
        })
    }
}

/// A stopped coordinator never emits again and never restarts.
pub proof fn lemma_stopped_stays(c: HeartbeatCoordinator, events: Seq<HeartbeatEvent>)
    requires
        c.stopped,
    ensures
        hb_run(c, events).1 == 0,
        hb_run(c, events).0.stopped,
    decreases events.len(),
{
    if events.len() > 0 {
        lemma_stopped_stays(hb_step(c, events[0]).0, events.skip(1));
    }
}

/// Shutdown fired before the first tick: no heartbeat is ever emitted.
pub proof fn lemma_shutdown_before_first_tick(
    c: HeartbeatCoordinator,
    events: Seq<HeartbeatEvent>,
)
    requires
        events.len() > 0,
        events[0] == HeartbeatEvent::Shutdown,
    ensures
        hb_run(c, events).1 == 0,
        hb_run(c, events).0.stopped,
{
    lemma_stopped_stays(hb_step(c, events[0]).0, events.skip(1));
}

/// Observing shutdown twice leaves the coordinator exactly as observing
/// it once does, with nothing emitted either time: the coordinator stops
/// exactly once.
pub proof fn lemma_shutdown_idempotent(c: HeartbeatCoordinator)
    ensures
        hb_step(hb_step(c, HeartbeatEvent::Shutdown).0, HeartbeatEvent::Shutdown).0 == hb_step(
            c,
            HeartbeatEvent::Shutdown,
        ).0,
        !hb_step(c, HeartbeatEvent::Shutdown).1,
        !hb_step(hb_step(c, HeartbeatEvent::Shutdown).0, HeartbeatEvent::Shutdown).1,
{
}

impl HeartbeatCoordinator {
    /// Well-formedness: the source-context names are wire-safe.
    pub open spec fn wf(&self) -> bool {
        header_field_ok(self.machine_name@) && header_field_ok(self.container_name@)
    }

    /// A fresh coordinator: nothing emitted, not stopped.
    pub fn new(machine_name: Vec<u8>, container_name: Vec<u8>) -> (r: Option<HeartbeatCoordinator>)
        ensures
            match r {
                Some(c) => c.wf() && !c.stopped && c.beats == 0 && c.machine_name@ == machine_name@
                    && c.container_name@ == container_name@,
                None => !(header_field_ok(machine_name@) && header_field_ok(container_name@)),
            },
    {
        if crate::record::header_field_check(&machine_name) && crate::record::header_field_check(
            &container_name,
        ) {
            Some(HeartbeatCoordinator { machine_name, container_name, beats: 0, stopped: false })
        } else {
            None
        }
    }

    /// Feeds one observed event in. Exactly when the step emits, the
    /// returned record is the heartbeat: `Error` severity, the fixed
    /// marker message, this coordinator's source context, the caller's
    /// timestamp.
    pub fn step(&mut self, ev: HeartbeatEvent, timestamp: &Vec<u8>) -> (r: Option<LogRecord>)
        requires
            old(self).wf(),
            old(self).beats < u64::MAX,
            header_field_ok(timestamp@),
        ensures
            final(self).wf(),
            *final(self) == hb_step(*old(self), ev).0,
            r is Some <==> hb_step(*old(self), ev).1,
            match r {
                Some(rec) => rec.wf() && rec.shape() == (RecordShape {
                    timestamp: timestamp@,
                    severity: Severity::Error,
                    machine: old(self).machine_name@,
                    container: old(self).container_name@,
                    message: heartbeat_marker(),
                }),
                None => true,
            },
    {
        match ev {
            HeartbeatEvent::Shutdown => {
                self.stopped = true;
                None
            },
            HeartbeatEvent::Tick => {
                if self.stopped {
                    None
                } else {
                    self.beats = self.beats + 1;
                    let marker = "HEARTBEAT - not a real error - HEARTBEAT";
                    proof {
                        reveal_strlit("HEARTBEAT - not a real error - HEARTBEAT");
                    }
                    let message = crate::bytes::ascii_bytes(marker);
                    let mut ts: Vec<u8> = Vec::new();
                    crate::bytes::append_bytes(&mut ts, timestamp.as_slice());
                    let mut machine: Vec<u8> = Vec::new();
                    crate::bytes::append_bytes(&mut machine, self.machine_name.as_slice());
                    let mut container: Vec<u8> = Vec::new();
                    crate::bytes::append_bytes(&mut container, self.container_name.as_slice());
                    proof {
                        assert(ts@ =~= timestamp@);
                        assert(machine@ =~= old(self).machine_name@);
                        assert(container@ =~= old(self).container_name@);
                    }
                    Some(
                        LogRecord {
                            timestamp: ts,
                            severity: Severity::Error,
                            message,
                            machine_name: machine,
                            container_name: container,
                        },
                    )
                }
            },
        }
    }
}

} // verus!
