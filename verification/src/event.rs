//! Event classification and the dispatch-loop decision: which compositor
//! events force a refresh, and when the loop terminates.

use vstd::prelude::*;

verus! {

/// The kinds of compositor events the dispatch loop distinguishes. Payloads
/// are irrelevant to the decision and are not carried.
#[derive(Clone, Copy, Debug, PartialEq, Eq, Structural)]
pub enum EventKind {
    WindowsChanged,
    WindowOpenedOrChanged,
    WindowClosed,
    WindowFocusChanged,
    WorkspacesChanged,
    WorkspaceActivated,
    /// Anything else, including payloads that failed to decode and empty
    /// reads: ignored without refreshing.
    Other,
}

/// The refresh-trigger set: every classified event except the catch-all.
pub open spec fn spec_triggers_refresh(e: EventKind) -> bool {
    !(e is Other)
}

/// Centralised predicate deciding whether an event invalidates the tracked
/// state and so forces a full refresh.
pub fn is_refresh_trigger(event: &EventKind) -> (r: bool)
    ensures
        r == spec_triggers_refresh(*event),
{
    !matches!(event, EventKind::Other)
}

/// State of the dispatch loop: it listens until the event stream fails hard,
/// then stays terminated forever.
#[derive(Clone, Copy, Debug, PartialEq, Eq, Structural)]
pub enum LoopState {
    Listening,
    Terminated,
}

/// One decision step of the dispatch loop. `event` is the outcome of reading
/// the event stream: a classified event, or `None` for a hard read error.
/// The returned flag says whether a refresh must run now. A terminated loop
/// never refreshes again; a read error terminates it; otherwise the loop
/// keeps listening and refreshes exactly on trigger events.
pub fn dispatch_step(state: LoopState, event: Option<EventKind>) -> (r: (LoopState, bool))
    ensures
        state is Terminated ==> r == (LoopState::Terminated, false),
        state is Listening && event is None ==> r == (LoopState::Terminated, false),
        state is Listening ==> (event matches Some(k) ==> r == (
            LoopState::Listening,
            spec_triggers_refresh(k),
        )),
{
    match state {
        LoopState::Terminated => (LoopState::Terminated, false),
        LoopState::Listening => match event {
            None => (LoopState::Terminated, false),
            Some(k) => {
                let trigger = is_refresh_trigger(&k);
                (LoopState::Listening, trigger)
            },
        },
    }
}

} // verus!
