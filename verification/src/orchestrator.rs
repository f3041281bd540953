//! The streaming-run orchestrator: the state machine a client stream is
//! driven by. The first message must be the configuration naming a
//! session; each later request is admitted only when a concurrency permit
//! is free (permits = configured parallelism, minimum 1); an execution
//! error answers the one request, while a timeout or a disconnect tears
//! the stream down; when the input ends, admitted work is drained before
//! the stream closes.

use vstd::prelude::*;

use crate::WorkerError;

verus! {

/// The phase of one client stream.
#[derive(Clone, Copy, Debug, PartialEq, Eq, Structural)]
pub enum StreamPhase {
    AwaitingConfig,
    Running,
    Draining,
    Closed,
}

/// One observed event on a stream.
#[derive(Clone, Copy, Debug, PartialEq, Eq, Structural)]
pub enum StreamEvent {
    /// The configuration message, carrying the session's parallelism.
    Config { parallel: u64 },
    /// An execution request.
    Args,
    /// An admitted run completed with a result.
    TaskDone,
    /// An admitted run failed with an application-level error.
    TaskFailed,
    /// An admitted run exceeded its wall-clock budget.
    TaskTimeout,
    /// The client's input stream ended cleanly.
    InputEnded,
    /// The client's input stream failed.
    InputFailed,
    /// The client abandoned the result channel.
    ClientGone,
}

/// What the driver must do next.
#[derive(Clone, Copy, Debug, PartialEq, Eq, Structural)]
pub enum StreamAction {
    /// Load the session, start the epoch ticker, begin accepting.
    Start,
    /// Admit the request and launch a sandbox run.
    Launch,
    /// No permit free: hold the request until a run completes.
    Wait,
    /// Forward a result to the client.
    SendResult,
    /// Forward an application-level error response; the stream lives on.
    SendError,
    /// Protocol error: abort the stream.
    Abort,
    /// Timeout or disconnect: cancel in-flight work and tear down.
    Cancel,
    /// Input is done: await the remaining admitted work.
    Drain,
    /// Nothing left: stop the ticker and close the result channel.
    Finish,
    /// The event carries no work in this phase.
    Ignore,
}

/// The orchestrator state of one stream.
#[derive(Clone, Copy, Debug, PartialEq, Eq, Structural)]
pub struct Orchestrator {
    pub phase: StreamPhase,
    pub permits: u64,
    pub in_flight: u64,
}

/// Structural soundness of a stream state: in-flight work never exceeds
/// the permits, and a stream that is not yet configured or already closed
/// has nothing in flight.
pub open spec fn orch_wf(o: Orchestrator) -> bool {
    &&& o.in_flight <= o.permits
    &&& (o.phase == StreamPhase::AwaitingConfig || o.phase == StreamPhase::Closed)
        ==> o.in_flight == 0
    &&& o.phase == StreamPhase::Running || o.phase == StreamPhase::Draining ==> o.permits >= 1
}

/// The full transition table: the next state and the driver's action.
pub open spec fn spec_step(o: Orchestrator, ev: StreamEvent) -> (Orchestrator, StreamAction) {
    match o.phase {
        StreamPhase::AwaitingConfig => match ev {
            StreamEvent::Config { parallel } => {
                let p = if parallel >= 1 {
                    parallel
                } else {
                    1
                };
                (
                    Orchestrator { phase: StreamPhase::Running, permits: p, in_flight: 0 },
                    StreamAction::Start,
                )
            },
            _ => (
                Orchestrator { phase: StreamPhase::Closed, permits: o.permits, in_flight: 0 },
                StreamAction::Abort,
            ),
        },
        StreamPhase::Running => match ev {
            StreamEvent::Config { parallel } => (
                Orchestrator { phase: StreamPhase::Closed, permits: o.permits, in_flight: 0 },
                StreamAction::Abort,
            ),
            StreamEvent::Args => if o.in_flight < o.permits {
                (
                    Orchestrator { in_flight: (o.in_flight + 1) as u64, ..o },
                    StreamAction::Launch,
                )
            } else {
                (o, StreamAction::Wait)
            },
            StreamEvent::TaskDone => if o.in_flight >= 1 {
                (
                    Orchestrator { in_flight: (o.in_flight - 1) as u64, ..o },
                    StreamAction::SendResult,
                )
            } else {
                (o, StreamAction::Ignore)
            },
            StreamEvent::TaskFailed => if o.in_flight >= 1 {
                (
                    Orchestrator { in_flight: (o.in_flight - 1) as u64, ..o },
                    StreamAction::SendError,
                )
            } else {
                (o, StreamAction::Ignore)
            },
            StreamEvent::TaskTimeout => (
                Orchestrator { phase: StreamPhase::Closed, permits: o.permits, in_flight: 0 },
                StreamAction::Cancel,
            ),
            StreamEvent::InputEnded | StreamEvent::InputFailed => if o.in_flight == 0 {
                (
                    Orchestrator { phase: StreamPhase::Closed, ..o },
                    StreamAction::Finish,
                )
            } else {
                (
                    Orchestrator { phase: StreamPhase::Draining, ..o },
                    StreamAction::Drain,
                )
            },
            StreamEvent::ClientGone => (
                Orchestrator { phase: StreamPhase::Closed, permits: o.permits, in_flight: 0 },
                StreamAction::Cancel,
            ),
        },
        StreamPhase::Draining => match ev {
            StreamEvent::TaskDone => if o.in_flight >= 1 {
                let left = (o.in_flight - 1) as u64;
                (
                    Orchestrator {
                        phase: if left == 0 {
                            StreamPhase::Closed
                        } else {
                            StreamPhase::Draining
                        },
                        permits: o.permits,
                        in_flight: left,
                    },
                    StreamAction::SendResult,
                )
            } else {
                (
                    Orchestrator { phase: StreamPhase::Closed, permits: o.permits, in_flight: 0 },
                    StreamAction::Finish,
                )
            },
            StreamEvent::TaskFailed => if o.in_flight >= 1 {
                let left = (o.in_flight - 1) as u64;
                (
                    Orchestrator {
                        phase: if left == 0 {
                            StreamPhase::Closed
                        } else {
                            StreamPhase::Draining
                        },
                        permits: o.permits,
                        in_flight: left,
                    },
                    StreamAction::SendError,
                )
            } else {
                (
                    Orchestrator { phase: StreamPhase::Closed, permits: o.permits, in_flight: 0 },
                    StreamAction::Finish,
                )
            },
            StreamEvent::TaskTimeout | StreamEvent::ClientGone => (
                Orchestrator { phase: StreamPhase::Closed, permits: o.permits, in_flight: 0 },
                StreamAction::Cancel,
            ),
            _ => (o, StreamAction::Ignore),
        },
        StreamPhase::Closed => (o, StreamAction::Ignore),
    }
}

impl Orchestrator {
    /// A fresh stream, waiting for its configuration message.
    pub fn new() -> (o: Orchestrator)
        ensures
            o.phase == StreamPhase::AwaitingConfig,
            o.permits == 0,
            o.in_flight == 0,
            orch_wf(o),
    {
        Orchestrator { phase: StreamPhase::AwaitingConfig, permits: 0, in_flight: 0 }
    }

    /// Feeds one event through the transition table.
    pub fn on_event(&mut self, ev: &StreamEvent) -> (a: StreamAction)
        requires
            orch_wf(*old(self)),
        ensures
            orch_wf(*final(self)),
            *final(self) == spec_step(*old(self), *ev).0,
            a == spec_step(*old(self), *ev).1,
    {
        match self.phase {
            StreamPhase::AwaitingConfig => match ev {
                StreamEvent::Config { parallel } => {
                    let p = if *parallel >= 1 {
                        *parallel
                    } else {
                        1
                    };
                    self.phase = StreamPhase::Running;
                    self.permits = p;
                    self.in_flight = 0;
                    StreamAction::Start
                },
                _ => {
                    self.phase = StreamPhase::Closed;
                    self.in_flight = 0;
                    StreamAction::Abort
                },
            },
            StreamPhase::Running => match ev {
                StreamEvent::Config { .. } => {
                    self.phase = StreamPhase::Closed;
                    self.in_flight = 0;
                    StreamAction::Abort
                },
                StreamEvent::Args => {
                    if self.in_flight < self.permits {
                        self.in_flight = self.in_flight + 1;
                        StreamAction::Launch
                    } else {
                        StreamAction::Wait
                    }
                },
                StreamEvent::TaskDone => {
                    if self.in_flight >= 1 {
                        self.in_flight = self.in_flight - 1;
                        StreamAction::SendResult
                    } else {
                        StreamAction::Ignore
                    }
                },
                StreamEvent::TaskFailed => {
                    if self.in_flight >= 1 {
                        self.in_flight = self.in_flight - 1;
                        StreamAction::SendError
                    } else {
                        StreamAction::Ignore
                    }
                },
                StreamEvent::TaskTimeout => {
                    self.phase = StreamPhase::Closed;
                    self.in_flight = 0;
                    StreamAction::Cancel
                },
                StreamEvent::InputEnded | StreamEvent::InputFailed => {
                    if self.in_flight == 0 {
                        self.phase = StreamPhase::Closed;
                        StreamAction::Finish
                    } else {
                        self.phase = StreamPhase::Draining;
                        StreamAction::Drain
                    }
                },
                StreamEvent::ClientGone => {
                    self.phase = StreamPhase::Closed;
                    self.in_flight = 0;
                    StreamAction::Cancel
                },
            },
            StreamPhase::Draining => match ev {
                StreamEvent::TaskDone => {
                    if self.in_flight >= 1 {
                        self.in_flight = self.in_flight - 1;
                        if self.in_flight == 0 {
                            self.phase = StreamPhase::Closed;
                        }
                        StreamAction::SendResult
                    } else {
                        self.phase = StreamPhase::Closed;
                        self.in_flight = 0;
                        StreamAction::Finish
                    }
                },
                StreamEvent::TaskFailed => {
                    if self.in_flight >= 1 {
                        self.in_flight = self.in_flight - 1;
                        if self.in_flight == 0 {
                            self.phase = StreamPhase::Closed;
                        }
                        StreamAction::SendError
                    } else {
                        self.phase = StreamPhase::Closed;
                        self.in_flight = 0;
                        StreamAction::Finish
                    }
                },
                StreamEvent::TaskTimeout | StreamEvent::ClientGone => {
                    self.phase = StreamPhase::Closed;
                    self.in_flight = 0;
                    StreamAction::Cancel
                },
                _ => StreamAction::Ignore,
            },
            StreamPhase::Closed => StreamAction::Ignore,
        }
    }
}

/// The stream-level error an action reports to the client: only a
/// protocol abort carries one; the other teardown paths are
/// cancellations, not error payloads.
pub fn abort_error(a: &StreamAction) -> (r: Option<WorkerError>)
    ensures
        r == if a is Abort {
            Option::Some(WorkerError::ProtocolError)
        } else {
            Option::<WorkerError>::None
        },
{
    if matches!(a, StreamAction::Abort) {
        Some(WorkerError::ProtocolError)
    } else {
        None
    }
}

/// With parallelism N, at most N requests run concurrently: an (N+1)-th
/// request is held while N are in flight, and is admitted exactly after
/// one of them completes.
pub proof fn lemma_parallelism_bound(o: Orchestrator, ev: StreamEvent)
    requires
        orch_wf(o),
    ensures
        orch_wf(spec_step(o, ev).0),
        spec_step(o, ev).0.in_flight <= spec_step(o, ev).0.permits,
        o.phase == StreamPhase::Running && o.in_flight == o.permits && ev == StreamEvent::Args
            ==> spec_step(o, ev) == (o, StreamAction::Wait),
        o.phase == StreamPhase::Running && o.in_flight == o.permits ==> {
            let o2 = spec_step(o, StreamEvent::TaskDone).0;
            &&& spec_step(o2, StreamEvent::Args).1 == StreamAction::Launch
            &&& spec_step(o2, StreamEvent::Args).0.in_flight == o.in_flight
        },
{
}

} // verus!
