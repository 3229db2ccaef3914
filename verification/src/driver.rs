//! The decisions of the render loop.
//!
//! The loop itself touches the terminal and the clock, so it lives with the
//! program. What it does next is decided here: the program hands in what
//! happened, and gets back what to do.

use vstd::prelude::*;

verus! {

/// How many seconds a frame stays on the screen.
pub const PAUSE_SECS: u64 = 1;

/// Where the render loop stands.
#[derive(Clone, Copy, Debug, PartialEq, Eq)]
pub enum State {
    /// Nothing is known of the terminal yet: its size is awaited.
    Init,
    /// Frames of this size are shown, one after the other: the outcome of
    /// clearing the screen is awaited.
    Tick { cols: u16, rows: u16 },
    /// The loop has ended.
    Stopped,
}

/// What happened in the terminal.
#[derive(Clone, Copy, Debug, PartialEq, Eq)]
pub enum Event {
    /// The terminal was asked for its size: columns and rows, or `None`
    /// where it has none to give.
    Size(Option<(u16, u16)>),
    /// The screen was cleared, or could not be.
    Cleared(bool),
}

/// What the program does next.
#[derive(Clone, Copy, Debug, PartialEq, Eq)]
pub enum Action {
    /// Clear the screen, and hand back how that went.
    Clear,
    /// Generate a frame of this size, write it out, pause for
    /// `PAUSE_SECS` seconds, clear the screen, and hand back how that went.
    Show { cols: u16, rows: u16 },
    /// Print the diagnostic line and end.
    Diagnose,
    /// Fail hard.
    Abort,
}

/// The state that follows `state` on `event`, and what to do on the way.
/// A terminal without a size ends the loop with a diagnostic; a screen that
/// cannot be cleared, or an event that the state does not await, aborts it.
pub open spec fn next(state: State, event: Event) -> (State, Action) {
    match (state, event) {
        (State::Init, Event::Size(Some((cols, rows)))) => (State::Tick { cols, rows }, Action::Clear),
        (State::Init, Event::Size(None)) => (State::Stopped, Action::Diagnose),
        (State::Tick { cols, rows }, Event::Cleared(true)) => (
            State::Tick { cols, rows },
            Action::Show { cols, rows },
        ),
        _ => (State::Stopped, Action::Abort),
    }
}

/// The state that the loop stands in after the events, from `state` on.
pub open spec fn run(state: State, events: Seq<Event>) -> State
    decreases events.len(),
{
    if events.len() == 0 {
        state
    } else {
        next(run(state, events.drop_last()), events.last()).0
    }
}

/// One decision of the render loop.
pub fn step(state: State, event: Event) -> (decided: (State, Action))
    ensures
        decided == next(state, event),
{
    match state {
        State::Init => match event {
            Event::Size(Some((cols, rows))) => (State::Tick { cols, rows }, Action::Clear),
            Event::Size(None) => (State::Stopped, Action::Diagnose),
            Event::Cleared(_) => (State::Stopped, Action::Abort),
        },
        State::Tick { cols, rows } => match event {
            Event::Cleared(true) => (State::Tick { cols, rows }, Action::Show { cols, rows }),
            Event::Cleared(false) => (State::Stopped, Action::Abort),
            Event::Size(_) => (State::Stopped, Action::Abort),
        },
        State::Stopped => (State::Stopped, Action::Abort),
    }
}

/// The line that is printed where the terminal has no size to give.
pub fn diagnostic() -> (line: &'static str)
    ensures
        line@ == "Failed to get terminal size"@,
{
    "Failed to get terminal size"
}

/// While the screen can be cleared, the loop goes on showing frames of
/// the size that it started with: nothing in it ends it.
pub proof fn lemma_tick_goes_on(cols: u16, rows: u16, events: Seq<Event>)
    requires
        forall|i: int| 0 <= i < events.len() ==> #[trigger] events[i] == Event::Cleared(true),
    ensures
        run(State::Tick { cols, rows }, events) == (State::Tick { cols, rows }),
    decreases events.len(),
{
    if events.len() > 0 {
        let earlier = events.drop_last();
        assert forall|i: int| 0 <= i < earlier.len() implies #[trigger] earlier[i]
            == Event::Cleared(true) by {
            assert(earlier[i] == events[i]);
        }
        lemma_tick_goes_on(cols, rows, earlier);
        assert(events.last() == events[events.len() - 1]);
    }
}

/// A loop that has ended stays ended, and asks for no frame and no
/// clearing of the screen any more.
pub proof fn lemma_stopped_stays(events: Seq<Event>, event: Event)
    ensures
        run(State::Stopped, events) == State::Stopped,
        next(State::Stopped, event) == (State::Stopped, Action::Abort),
    decreases events.len(),
{
    if events.len() > 0 {
        lemma_stopped_stays(events.drop_last(), event);
    }
}

} // verus!
