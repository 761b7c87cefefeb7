use vstd::prelude::*;

use crate::poller::{poll_command, poll_next, PollerView};

verus! {

/// The two states of the pipeline.
#[derive(Clone, Copy, Debug, PartialEq, Eq, Structural)]
pub enum RunState {
    Running,
    Stopped,
}

/// What the supervisor observes.
#[derive(Clone, Copy, Debug, PartialEq, Eq, Structural)]
pub enum SupervisorEvent {
    /// The operating environment asked the process to stop.
    CancelSignal,
    /// The pipeline itself ended, for instance when it could not start.
    PipelineEnded,
}

/// What the supervisor does after an event.
#[derive(Clone, Copy, Debug, PartialEq, Eq, Structural)]
pub enum Directive {
    /// Abandon every poller and the forwarder, then exit.
    TearDown,
}

/// The state after an event: every event stops the pipeline, and stopped is
/// terminal.
pub open spec fn next_state(s: RunState, ev: SupervisorEvent) -> RunState {
    RunState::Stopped
}

/// Supervises the pipeline's lifetime.
pub struct Coordinator {
    state: RunState,
}

impl View for Coordinator {
    type V = RunState;

    closed spec fn view(&self) -> RunState {
        self.state
    }
}

impl Coordinator {
    /// A running pipeline.
    pub fn new() -> (r: Coordinator)
        ensures
            r@ == RunState::Running,
    {
        Coordinator { state: RunState::Running }
    }

    pub fn state(&self) -> (r: RunState)
        ensures
            r == self@,
    {
        self.state
    }

    /// Whether a poller may start another transaction.
    pub fn may_start_transaction(&self) -> (r: bool)
        ensures
            r == (self@ == RunState::Running),
    {
        self.state == RunState::Running
    }

    /// Handles an event: the pipeline stops and is torn down.
    pub fn on_event(&mut self, ev: SupervisorEvent) -> (r: Directive)
        ensures
            final(self)@ == next_state(old(self)@, ev),
            r == Directive::TearDown,
    {
        self.state = RunState::Stopped;
        Directive::TearDown
    }
}

/// Once a cancellation signal is seen the state is stopped, and no later
/// event leads back to running.
pub proof fn lemma_stopped_is_terminal(s: RunState, later: SupervisorEvent)
    ensures
        next_state(s, SupervisorEvent::CancelSignal) == RunState::Stopped,
        next_state(next_state(s, SupervisorEvent::CancelSignal), later) == RunState::Stopped,
{
}

/// A poller that asks the coordinator before each transaction starts none
/// once the cancellation signal has been handled, now or at any later step.
pub proof fn lemma_cancel_stops_polling(s: RunState, p: PollerView, later: bool)
    ensures
        ({
            let cancelled = next_state(s, SupervisorEvent::CancelSignal) != RunState::Running;
            &&& poll_command(p, cancelled) is None
            &&& poll_command(poll_next(p, cancelled), later) is None
        }),
{
}

} // verus!
