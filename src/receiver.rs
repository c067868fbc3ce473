use vstd::prelude::*;

verus! {

/// Where the receiver's pull loop stands.
#[derive(Clone, Copy, Debug, PartialEq, Eq, Structural)]
pub enum ReceiverState {
    /// Between iterations, waiting for the next pull or for the stop signal.
    Idle,
    /// Running one pull iteration.
    Fetching,
    /// Sleeping the backoff interval after a failed iteration.
    Recovering,
    /// Stopped for good.
    Stopped,
}

/// What happened to the receiver.
#[derive(Clone, Copy, Debug, PartialEq, Eq, Structural)]
pub enum ReceiverEvent {
    /// The actor was started.
    Start,
    /// An iteration ended without error.
    IterationSucceeded,
    /// An iteration ended with an error, or one of its tasks died.
    IterationFailed,
    /// The fixed interval (between pulls, or of the backoff) has elapsed.
    IntervalElapsed,
    /// The stop signal fired.
    StopRequested,
}

/// What the receiver does next.
#[derive(Clone, Copy, Debug, PartialEq, Eq, Structural)]
pub enum ReceiverAction {
    /// Publish "active", then run one iteration.
    RunIteration,
    /// Publish "idle", then race the fixed interval against the stop signal.
    AwaitNextPull,
    /// Publish "idle", then sleep the backoff interval; stop is not observed.
    Backoff,
    /// Leave the loop.
    Terminate,
    /// Nothing: the event does not apply in this state.
    Ignore,
}

/// The receiver's transition table. Errors never leave the loop; the stop
/// signal is only honoured while idle, after an iteration has completed.
pub open spec fn receiver_step(s: ReceiverState, e: ReceiverEvent) -> (ReceiverState, ReceiverAction) {
    match (s, e) {
        (ReceiverState::Idle, ReceiverEvent::Start) => (ReceiverState::Fetching, ReceiverAction::RunIteration),
        (ReceiverState::Idle, ReceiverEvent::IntervalElapsed) => (ReceiverState::Fetching, ReceiverAction::RunIteration),
        (ReceiverState::Idle, ReceiverEvent::StopRequested) => (ReceiverState::Stopped, ReceiverAction::Terminate),
        (ReceiverState::Fetching, ReceiverEvent::IterationSucceeded) => (ReceiverState::Idle, ReceiverAction::AwaitNextPull),
        (ReceiverState::Fetching, ReceiverEvent::IterationFailed) => (ReceiverState::Recovering, ReceiverAction::Backoff),
        (ReceiverState::Recovering, ReceiverEvent::IntervalElapsed) => (ReceiverState::Fetching, ReceiverAction::RunIteration),
        _ => (s, ReceiverAction::Ignore),
    }
}

impl ReceiverState {
    /// The active flag that observers see.
    pub fn is_active(&self) -> (r: bool)
        ensures
            r == (*self == ReceiverState::Fetching),
    {
        match self {
            ReceiverState::Fetching => true,
            _ => false,
        }
    }

    /// The next state and the action to perform for `event`.
    pub fn step(&self, event: ReceiverEvent) -> (r: (ReceiverState, ReceiverAction))
        ensures
            r == receiver_step(*self, event),
            event == ReceiverEvent::StopRequested && *self != ReceiverState::Idle ==> r.0 == *self,
            event == ReceiverEvent::IterationFailed && *self == ReceiverState::Fetching ==> r.0
                != ReceiverState::Stopped,
    {
        match (self, event) {
            (ReceiverState::Idle, ReceiverEvent::Start) => (ReceiverState::Fetching, ReceiverAction::RunIteration),
            (ReceiverState::Idle, ReceiverEvent::IntervalElapsed) => (ReceiverState::Fetching, ReceiverAction::RunIteration),
            (ReceiverState::Idle, ReceiverEvent::StopRequested) => (ReceiverState::Stopped, ReceiverAction::Terminate),
            (ReceiverState::Fetching, ReceiverEvent::IterationSucceeded) => (ReceiverState::Idle, ReceiverAction::AwaitNextPull),
            (ReceiverState::Fetching, ReceiverEvent::IterationFailed) => (ReceiverState::Recovering, ReceiverAction::Backoff),
            (ReceiverState::Recovering, ReceiverEvent::IntervalElapsed) => (ReceiverState::Fetching, ReceiverAction::RunIteration),
            _ => (*self, ReceiverAction::Ignore),
        }
    }
}

} // verus!
