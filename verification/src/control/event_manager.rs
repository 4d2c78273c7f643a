//! Window-event bookkeeping.
//!
//! The window loop translates each backend event into a plain
//! `InputEvent` and hands it over; the decisions — when the session is
//! done, when the swapchain must be rebuilt, which keys are held — live
//! here.  Pointer-motion events carry floating-point deltas and stay
//! with the window loop.

use vstd::prelude::*;
use crate::control::keyboard::Keyboard;

verus! {

/// The scancode whose release ends the session (the escape key).
pub const QUIT_SCANCODE: u32 = 9;

/// One window event, reduced to plain values.
#[derive(Clone, Copy, Debug, PartialEq, Eq, Structural)]
pub enum InputEvent {
    /// The window was closed.
    Closed,
    /// The window was resized.
    Resized,
    /// A key changed state.
    Key { scancode: u32, pressed: bool },
}

/// Tracks the keyboard and the two one-shot flags the render loop polls.
pub struct EventManager {
    pub keyboard: Keyboard,
    pub done: bool,
    pub recreate_swapchain: bool,
}

impl EventManager {
    /// Starts with no keys held and no pending flags.
    pub fn new() -> (r: EventManager)
        ensures
            r.keyboard == Keyboard::new_spec(),
            !r.done,
            !r.recreate_swapchain,
    {
        EventManager { keyboard: Keyboard::new(), done: false, recreate_swapchain: false }
    }

    /// Applies one event: closing the window or releasing the quit key
    /// ends the session, a resize schedules a swapchain rebuild, and any
    /// other key press updates the keyboard.
    pub fn process_event(&mut self, ev: InputEvent)
        ensures
            final(self).done == (old(self).done || ev == InputEvent::Closed || ev
                == (InputEvent::Key { scancode: QUIT_SCANCODE, pressed: false })),
            final(self).recreate_swapchain == (old(self).recreate_swapchain || ev == InputEvent::Resized),
            final(self).keyboard == (match ev {
                InputEvent::Key { scancode, pressed } => {
                    if scancode == QUIT_SCANCODE && !pressed {
                        old(self).keyboard
                    } else {
                        old(self).keyboard.handle_keypress_spec(scancode, pressed)
                    }
                },
                _ => old(self).keyboard,
            }),
    {
        match ev {
            InputEvent::Closed => {
                self.done = true;
            },
            InputEvent::Resized => {
                self.recreate_swapchain = true;
            },
            InputEvent::Key { scancode, pressed } => {
                if scancode == QUIT_SCANCODE && !pressed {
                    self.done = true;
                } else {
                    self.keyboard.handle_keypress(scancode, pressed);
                }
            },
        }
    }

    /// Takes the pending-resize flag, clearing it.
    pub fn recreate_swapchain(&mut self) -> (r: bool)
        ensures
            r == old(self).recreate_swapchain,
            !final(self).recreate_swapchain,
            final(self).done == old(self).done,
            final(self).keyboard == old(self).keyboard,
    {
        let r = self.recreate_swapchain;
        self.recreate_swapchain = false;
        r
    }

    /// Takes the done flag, clearing it.
    pub fn done(&mut self) -> (r: bool)
        ensures
            r == old(self).done,
            !final(self).done,
            final(self).recreate_swapchain == old(self).recreate_swapchain,
            final(self).keyboard == old(self).keyboard,
    {
        let r = self.done;
        self.done = false;
        r
    }
}

} // verus!
