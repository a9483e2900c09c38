//! Keys that the system hands on: on a keyboard, on headphones.
use crate::state::{PlayerState, Transport};
use vstd::prelude::*;

verus! {

/// What such a key asks for.
#[derive(Clone, Copy, Debug, PartialEq, Eq, Structural)]
pub enum MediaEvent {
    Play,
    Pause,
    Toggle,
    Next,
    Previous,
    Stop,
    Other,
}

/// The player after such a key. To play while playing, and to pause while
/// paused, changes nothing.
pub open spec fn after_event(t: Transport, e: MediaEvent) -> Transport {
    match e {
        MediaEvent::Play => Transport { paused: false, ..t },
        MediaEvent::Pause => Transport { paused: true, ..t },
        MediaEvent::Toggle => Transport { paused: !t.paused, ..t },
        MediaEvent::Next => Transport { skip_next: true, ..t },
        MediaEvent::Previous => Transport { skip_prev: true, ..t },
        MediaEvent::Stop => Transport { quit: true, ..t },
        MediaEvent::Other => t,
    }
}

/// Does what such a key asks for.
pub fn handle(state: &mut PlayerState, event: MediaEvent)
    ensures
        *final(state) == (PlayerState { transport: after_event(old(state).transport, event), ..*old(state) }),
{
    match event {
        MediaEvent::Play => {
            if state.is_paused() {
                state.toggle_pause();
            }
        },
        MediaEvent::Pause => {
            if !state.is_paused() {
                state.toggle_pause();
            }
        },
        MediaEvent::Toggle => {
            state.toggle_pause();
        },
        MediaEvent::Next => {
            state.next();
        },
        MediaEvent::Previous => {
            state.prev();
        },
        MediaEvent::Stop => {
            state.quit();
        },
        MediaEvent::Other => {},
    }
}

} // verus!
