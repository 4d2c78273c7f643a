//! Keyboard movement state (the flat-layout twin of `control::keyboard`).
//!
//! The window loop hands each key event over as a plain scancode and a
//! pressed flag; the mapping from scancodes to movement directions lives
//! here.

use vstd::prelude::*;

verus! {

/// Which movement keys are currently held down.
#[derive(Clone, Copy, Debug, PartialEq, Eq, Structural)]
pub struct Keyboard {
    pub forward_pressed: bool,
    pub left_pressed: bool,
    pub right_pressed: bool,
    pub back_pressed: bool,
    pub top_pressed: bool,
    pub bottom_pressed: bool,
}


impl Keyboard {
    /// All keys released.
    pub open spec fn new_spec() -> Keyboard {
        Keyboard {
            forward_pressed: false,
            left_pressed: false,
            right_pressed: false,
            back_pressed: false,
            top_pressed: false,
            bottom_pressed: false,
        }
    }

    /// The state after one key event: each movement direction is bound
    /// to two scancodes (letter key and arrow key); other scancodes
    /// change nothing.
    pub open spec fn handle_keypress_spec(self, scancode: u32, pressed: bool) -> Keyboard {
        Keyboard {
            forward_pressed: if scancode == 25 || scancode == 111 {
                pressed
            } else {
                self.forward_pressed
            },
            left_pressed: if scancode == 38 || scancode == 113 {
                pressed
            } else {
                self.left_pressed
            },
            right_pressed: if scancode == 40 || scancode == 114 {
                pressed
            } else {
                self.right_pressed
            },
            back_pressed: if scancode == 39 || scancode == 116 {
                pressed
            } else {
                self.back_pressed
            },
            top_pressed: if scancode == 50 || scancode == 62 {
                pressed
            } else {
                self.top_pressed
            },
            bottom_pressed: if scancode == 37 || scancode == 105 {
                pressed
            } else {
                self.bottom_pressed
            },
        }
    }
}

impl Keyboard {
    /// All keys start released.
    pub fn new() -> (r: Keyboard)
        ensures
            r == Keyboard::new_spec(),
    {
        Keyboard {
            forward_pressed: false,
            left_pressed: false,
            right_pressed: false,
            back_pressed: false,
            top_pressed: false,
            bottom_pressed: false,
        }
    }

    /// Applies one key event: each movement direction is bound to two
    /// scancodes (letter key and arrow key); other scancodes change
    /// nothing.
    pub fn handle_keypress(&mut self, scancode: u32, pressed: bool)
        ensures
            *final(self) == old(self).handle_keypress_spec(scancode, pressed),
    {
        match scancode {
            25 | 111 => self.forward_pressed = pressed,
            38 | 113 => self.left_pressed = pressed,
            40 | 114 => self.right_pressed = pressed,
            39 | 116 => self.back_pressed = pressed,
            50 | 62 => self.top_pressed = pressed,
            37 | 105 => self.bottom_pressed = pressed,
            _ => (),
        }
    }
}

} // verus!
