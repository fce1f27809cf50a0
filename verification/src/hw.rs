//! Button handling: the decisions of waiting for a press and for a release,
//! one poll of the button at a time.

use vstd::prelude::*;

verus! {

/// Poll interval while waiting on the button, in milliseconds.
pub const POLL_MS: u64 = 20;

/// How long the button must be held for a long press, in milliseconds.
pub const LONG_PRESS_MS: u64 = 500;

/// What one wait for the button yields.
#[derive(Clone, Copy, Debug, PartialEq, Eq, Structural)]
pub enum ButtonEvent {
    /// The button was not pressed.
    NoPress,
    /// Pressed and released within the long-press time.
    ShortPress,
    /// Held for the long-press time.
    LongPress,
}

/// Where a wait for a button event stands.
#[derive(Clone, Copy, Debug, PartialEq, Eq, Structural)]
pub enum EventWait {
    /// The button has not been looked at yet.
    Start,
    /// The button was found pressed and the press is being timed.
    Held,
}

/// What the waiting loop does after one look at the button.
#[derive(Clone, Copy, Debug, PartialEq, Eq, Structural)]
pub enum WaitAction {
    /// Start timing the press, then look again at once.
    StartTimer,
    /// Sleep this many milliseconds, then look again.
    Sleep(u64),
    /// Sleep this many milliseconds (none if 0), then report the event.
    Finish(u64, ButtonEvent),
}

/// One step of waiting for a button event, given the state, whether the
/// button is pressed now, and for how long the press has been timed.
pub open spec fn spec_event_step(state: EventWait, pressed: bool, held_ms: u64) -> (
    EventWait,
    WaitAction,
) {
    match state {
        EventWait::Start => if pressed {
            (EventWait::Held, WaitAction::StartTimer)
        } else {
            (EventWait::Start, WaitAction::Finish(POLL_MS, ButtonEvent::NoPress))
        },
        EventWait::Held => if !pressed {
            (EventWait::Held, WaitAction::Finish(0, ButtonEvent::ShortPress))
        } else if held_ms >= LONG_PRESS_MS {
            (EventWait::Held, WaitAction::Finish(0, ButtonEvent::LongPress))
        } else {
            (EventWait::Held, WaitAction::Sleep(POLL_MS))
        },
    }
}

/// One step of waiting for a button event: an unpressed button reports no
/// event after one poll interval; a press is timed and reported as a long
/// press once held for the long-press time, or as a short press when
/// released before.
pub fn wait_for_event_step(state: EventWait, pressed: bool, held_ms: u64) -> (r: (
    EventWait,
    WaitAction,
))
    ensures
        r == spec_event_step(state, pressed, held_ms),
{
    match state {
        EventWait::Start => {
            if !pressed {
                return (EventWait::Start, WaitAction::Finish(POLL_MS, ButtonEvent::NoPress));
            }
            (EventWait::Held, WaitAction::StartTimer)
        },
        EventWait::Held => {
            if !pressed {
                (EventWait::Held, WaitAction::Finish(0, ButtonEvent::ShortPress))
            } else if held_ms >= LONG_PRESS_MS {
                (EventWait::Held, WaitAction::Finish(0, ButtonEvent::LongPress))
            } else {
                (EventWait::Held, WaitAction::Sleep(POLL_MS))
            }
        },
    }
}

/// One step of waiting for the button to be released: while it is pressed,
/// sleep one poll interval and look again; once released, stop.
pub fn wait_for_release_step(pressed: bool) -> (r: Option<u64>)
    ensures
        r == (if pressed { Some(POLL_MS) } else { None::<u64> }),
{
    if pressed {
        Some(POLL_MS)
    } else {
        None
    }
}

/// A long press is reported only for a press held for the long-press time,
/// a short press only on release, and a wait never reports twice: every
/// report ends the wait.
pub proof fn lemma_event_reports(state: EventWait, pressed: bool, held_ms: u64)
    ensures
        spec_event_step(state, pressed, held_ms).1 == WaitAction::Finish(0, ButtonEvent::LongPress)
            ==> state == EventWait::Held && pressed && held_ms >= LONG_PRESS_MS,
        spec_event_step(state, pressed, held_ms).1 == WaitAction::Finish(0, ButtonEvent::ShortPress)
            ==> state == EventWait::Held && !pressed,
        spec_event_step(state, pressed, held_ms).1 matches WaitAction::Finish(_, ButtonEvent::NoPress)
            ==> state == EventWait::Start && !pressed,
{
}


/// Whole microseconds to wait for a delay of `ns` nanoseconds, rounded up so
/// that the wait is never shorter than asked.
pub fn delay_us_for_ns(ns: u32) -> (us: u64)
    ensures
        us == (ns + 999) / 1000,
        us * 1000 >= ns,
        us * 1000 < ns + 1000,
{
    (ns as u64 + 999) / 1000
}

} // verus!
