//! The serial sink's connection cycle, as a state machine: the caller
//! performs each action and reports back what happened.

use vstd::prelude::*;

verus! {

/// Seconds to wait before trying to open the serial port again.
pub const OPEN_BACKOFF_SECS: u64 = 1;

/// Seconds a pull from the channel waits for a batch.
pub const PULL_TIMEOUT_SECS: u64 = 2;

/// Where the sink is in its connection cycle.
#[derive(Debug, Clone, Copy, PartialEq, Eq, Structural)]
pub enum SinkPhase {
    /// Pushes are refused while the port is being (re)opened.
    Connecting,
    /// The port and its control listener are live; batches are pulled and
    /// written.
    Serving,
    /// The data sources are gone; the sink has finished.
    Stopped,
}

/// What happened since the last action.
#[derive(Debug, Clone, Copy, PartialEq, Eq, Structural)]
pub enum SinkEvent {
    /// The serial port could not be opened.
    OpenFailed,
    /// The serial port is open.
    Opened,
    /// A pull found no batch within its timeout.
    PullTimedOut,
    /// A batch was written and flushed.
    Written,
    /// Writing or flushing a batch failed.
    WriteFailed,
    /// Every producer is gone.
    SourceGone,
}

/// What the sink does next.
#[derive(Debug, Clone, Copy, PartialEq, Eq, Structural)]
pub enum SinkAction {
    /// Refuse pushes, wait out the backoff, and try to open the port.
    RetryOpen,
    /// Start the control listener, accept pushes, and pull a batch.
    StartServing,
    /// Pull the next batch and write it.
    Pull,
    /// Refuse pushes, stop and join the control listener, and reopen the
    /// port.
    Reconnect,
    /// Stop for good.
    Exit,
}

/// The transition table of the sink.
pub open spec fn sink_next(phase: SinkPhase, event: SinkEvent) -> (SinkPhase, SinkAction) {
    match event {
        SinkEvent::SourceGone => (SinkPhase::Stopped, SinkAction::Exit),
        _ => match phase {
            SinkPhase::Stopped => (SinkPhase::Stopped, SinkAction::Exit),
            SinkPhase::Connecting => match event {
                SinkEvent::Opened => (SinkPhase::Serving, SinkAction::StartServing),
                _ => (SinkPhase::Connecting, SinkAction::RetryOpen),
            },
            SinkPhase::Serving => match event {
                SinkEvent::WriteFailed => (SinkPhase::Connecting, SinkAction::Reconnect),
                _ => (SinkPhase::Serving, SinkAction::Pull),
            },
        },
    }
}

/// Whether producers may push in this phase: only while serving.
pub open spec fn accepts_pushes(phase: SinkPhase) -> bool {
    phase == SinkPhase::Serving
}

/// The next phase and action of the sink after `event`.
pub fn sink_step(phase: SinkPhase, event: SinkEvent) -> (r: (SinkPhase, SinkAction))
    ensures
        r == sink_next(phase, event),
{
    match event {
        SinkEvent::SourceGone => (SinkPhase::Stopped, SinkAction::Exit),
        _ => match phase {
            SinkPhase::Stopped => (SinkPhase::Stopped, SinkAction::Exit),
            SinkPhase::Connecting => match event {
                SinkEvent::Opened => (SinkPhase::Serving, SinkAction::StartServing),
                _ => (SinkPhase::Connecting, SinkAction::RetryOpen),
            },
            SinkPhase::Serving => match event {
                SinkEvent::WriteFailed => (SinkPhase::Connecting, SinkAction::Reconnect),
                _ => (SinkPhase::Serving, SinkAction::Pull),
            },
        },
    }
}

/// Pushes start being accepted only when the port has just been opened, a
/// failed write always stops accepting them, and once the sources are gone
/// the sink stays stopped.
pub proof fn lemma_sink_readiness(phase: SinkPhase, event: SinkEvent)
    ensures
        !accepts_pushes(phase) && accepts_pushes(sink_next(phase, event).0) ==> event == SinkEvent::Opened
            && phase == SinkPhase::Connecting,
        event == SinkEvent::WriteFailed ==> !accepts_pushes(sink_next(phase, event).0),
        phase == SinkPhase::Stopped ==> sink_next(phase, event).0 == SinkPhase::Stopped,
{
}

} // verus!
