//! The consumer thread's drain loop as a state machine.
//!
//! The thread repeatedly blocks on a receive, feeds what came back to
//! [`step`], performs the returned action and moves to the returned state.
//! It stops receiving once the state is `Stopped`.
use vstd::prelude::*;

verus! {

/// The two states of the drain loop. `Stopped` is terminal.
#[derive(Clone, Copy, Debug, PartialEq, Eq, Structural)]
pub enum LoopState {
    Running,
    Stopped,
}

/// What one blocking receive on the worker's queue came back with.
pub enum Received<T> {
    /// A message that some producer sent.
    Message(T),
    /// The queue is empty and no producer handle is left: nothing can ever
    /// arrive again.
    Closed,
}

/// What the consumer thread does after a receive.
pub enum Action<T> {
    /// Call the handler once with this message.
    Handle(T),
    /// Return from the thread function, so that it can be joined.
    Exit,
}

/// The state the loop moves to after `event` was received in `state`.
pub open spec fn next_state<T>(state: LoopState, event: Received<T>) -> LoopState {
    match (state, event) {
        (LoopState::Running, Received::Message(_)) => LoopState::Running,
        _ => LoopState::Stopped,
    }
}

/// The action the loop takes after `event` was received in `state`: a
/// message received while running goes to the handler; anything else ends
/// the loop.
pub open spec fn next_action<T>(state: LoopState, event: Received<T>) -> Action<T> {
    match (state, event) {
        (LoopState::Running, Received::Message(m)) => Action::Handle(m),
        _ => Action::Exit,
    }
}

/// Decides what the drain loop does with the outcome of one receive.
pub fn step<T>(state: LoopState, event: Received<T>) -> (r: (LoopState, Action<T>))
    ensures
        r.0 == next_state(state, event),
        r.1 == next_action(state, event),
{
    match state {
        LoopState::Running => match event {
            Received::Message(m) => (LoopState::Running, Action::Handle(m)),
            Received::Closed => (LoopState::Stopped, Action::Exit),
        },
        LoopState::Stopped => (LoopState::Stopped, Action::Exit),
    }
}

/// The messages handed to the handler when the loop starts in `state` and
/// receives `events` one after another.
pub open spec fn handled<T>(state: LoopState, events: Seq<Received<T>>) -> Seq<T>
    decreases events.len(),
{
    if events.len() == 0 {
        Seq::empty()
    } else {
        let rest = handled(next_state(state, events[0]), events.drop_first());
        match next_action(state, events[0]) {
            Action::Handle(m) => seq![m] + rest,
            Action::Exit => rest,
        }
    }
}

/// The state the loop is in after starting in `state` and receiving `events`.
pub open spec fn state_after<T>(state: LoopState, events: Seq<Received<T>>) -> LoopState
    decreases events.len(),
{
    if events.len() == 0 {
        state
    } else {
        state_after(next_state(state, events[0]), events.drop_first())
    }
}

} // verus!
