//! Events from the ticker and the terminal, and what the main loop does with each.
use vstd::prelude::*;

use crate::view_state::{key_applied, KeyEvent, ViewState};

verus! {

/// One event of the merged event stream.
pub enum Event {
    /// time to take a snapshot and redraw
    Tick,
    /// the terminal was resized
    Resize,
    Key(KeyEvent),
}

/// An instruction to the main loop.
#[derive(Debug, Clone, Copy, PartialEq, Eq, Structural)]
pub enum Next {
    Continue,
    Quit,
}

/// What the main loop does after an event.
#[derive(Debug, Clone, Copy, PartialEq, Eq, Structural)]
pub enum Step {
    /// take a snapshot, update the record table, then redraw
    Sample,
    /// redraw
    Redraw,
    /// stop
    Quit,
}

/// Continue or quit, after a key press has been applied to `state`.
pub fn next_after_key(state: &mut ViewState, key: &KeyEvent) -> (r: Next)
    ensures
        key_applied(*old(state), *final(state), *key),
        r == (if final(state).should_quit { Next::Quit } else { Next::Continue }),
{
    state.handle_key(key);
    if state.should_quit {
        Next::Quit
    } else {
        Next::Continue
    }
}

/// Decides what the main loop does with `event`; a key press updates `state`.
pub fn step(state: &mut ViewState, event: &Event) -> (r: Step)
    ensures
        match *event {
            Event::Tick => r == Step::Sample && *final(state) == *old(state),
            Event::Resize => r == Step::Redraw && *final(state) == *old(state),
            Event::Key(ref k) => key_applied(*old(state), *final(state), *k) && r == (
            if final(state).should_quit {
                Step::Quit
            } else {
                Step::Redraw
            }),
        },
{
    match event {
        Event::Tick => Step::Sample,
        Event::Resize => Step::Redraw,
        Event::Key(k) => match next_after_key(state, k) {
            Next::Quit => Step::Quit,
            Next::Continue => Step::Redraw,
        },
    }
}

} // verus!
