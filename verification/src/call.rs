//! The life of one cross-boundary call.
//!
//! A call is pending once the caller has marshaled the arguments, in flight
//! while the callee executes, and then either completed, with the result
//! marshaled back, or faulted. Both ends are final: a faulted call is never
//! retried and never yields a partial result.

use vstd::prelude::*;
use crate::fault::CallError;

verus! {

/// The state of a call.
#[derive(Debug, Clone, Copy, PartialEq, Eq, Structural)]
pub enum CallState {
    /// The caller has marshaled the arguments.
    Pending,
    /// The callee is executing.
    InFlight,
    /// The result has been marshaled back.
    Completed,
    /// The callee raised an error that it cannot recover from.
    Faulted,
}

/// What happens to a call.
#[derive(Debug, Clone, Copy, PartialEq, Eq, Structural)]
pub enum CallEvent {
    /// The arguments are handed to the callee.
    Dispatch,
    /// The callee returns a result.
    Return,
    /// The callee faults.
    Fault,
}

/// The state that `event` moves a call in state `state` to, or `None` where
/// the event cannot happen in that state.
pub open spec fn next_state(state: CallState, event: CallEvent) -> Option<CallState> {
    match (state, event) {
        (CallState::Pending, CallEvent::Dispatch) => Some(CallState::InFlight),
        (CallState::InFlight, CallEvent::Return) => Some(CallState::Completed),
        (CallState::InFlight, CallEvent::Fault) => Some(CallState::Faulted),
        _ => None,
    }
}

/// The event that ends a call with the given outcome.
pub open spec fn closing_event<T>(outcome: Result<T, CallError>) -> CallEvent {
    match outcome {
        Ok(_) => CallEvent::Return,
        Err(_) => CallEvent::Fault,
    }
}

impl CallState {
    /// True for the two states that a call never leaves.
    pub open spec fn terminal(self) -> bool {
        self == CallState::Completed || self == CallState::Faulted
    }

    /// True for the two states that a call never leaves.
    pub fn is_terminal(self) -> (r: bool)
        ensures
            r == self.terminal(),
    {
        match self {
            CallState::Completed => true,
            CallState::Faulted => true,
            _ => false,
        }
    }

    /// Moves the call on by one event. Returns `None`, and decides nothing,
    /// where the event cannot happen in this state.
    pub fn advance(self, event: CallEvent) -> (r: Option<CallState>)
        ensures
            r == next_state(self, event),
    {
        match (self, event) {
            (CallState::Pending, CallEvent::Dispatch) => Some(CallState::InFlight),
            (CallState::InFlight, CallEvent::Return) => Some(CallState::Completed),
            (CallState::InFlight, CallEvent::Fault) => Some(CallState::Faulted),
            _ => None,
        }
    }

    /// The state in which a call with the given outcome ends.
    pub fn settle<T>(outcome: &Result<T, CallError>) -> (state: CallState)
        ensures
            next_state(CallState::InFlight, closing_event(*outcome)) == Some(state),
            state == CallState::Completed <==> outcome is Ok,
            state == CallState::Faulted <==> outcome is Err,
    {
        match outcome {
            Ok(_) => CallState::Completed,
            Err(_) => CallState::Faulted,
        }
    }
}

/// A call that has completed or faulted stays as it is: no event moves it,
/// so a fault is never retried and never turned into a result.
pub proof fn lemma_terminal_is_final(state: CallState, event: CallEvent)
    requires
        state.terminal(),
    ensures
        next_state(state, event) is None,
{
}

/// No event takes a call back to the start.
pub proof fn lemma_never_pending_again(state: CallState, event: CallEvent)
    ensures
        next_state(state, event) != Some(CallState::Pending),
{
}

/// A call ends after exactly two events: it is dispatched, and then it either
/// returns or faults.
pub proof fn lemma_call_ends_in_two_steps(first: CallEvent, second: CallEvent)
    requires
        next_state(CallState::Pending, first) is Some,
        next_state(next_state(CallState::Pending, first)->0, second) is Some,
    ensures
        first == CallEvent::Dispatch,
        second != CallEvent::Dispatch,
        next_state(next_state(CallState::Pending, first)->0, second)->0.terminal(),
{
}

} // verus!
