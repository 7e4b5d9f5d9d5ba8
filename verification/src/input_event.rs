//! Input events as the editor core sees them: already decoded key presses.
//! Turning a terminal backend's raw events into these values happens
//! outside the core.

use vstd::prelude::*;
use crate::units::{Position, Size};

verus! {

/// Non-character keys the editor reacts to.
#[derive(Clone, Copy, PartialEq, Eq, Structural, Debug)]
pub enum SpecialKey {
    Enter,
    Delete,
    Backspace,
    Up,
    Down,
    Left,
    Right,
    Home,
    End,
    PageUp,
    PageDown,
}

/// One key: a printable character or a special key.
#[derive(Clone, Copy, PartialEq, Eq, Structural, Debug)]
pub enum Key {
    Character(char),
    SpecialKey(SpecialKey),
}

/// A key press. Only plain, unmodified presses reach the editor core.
#[derive(Clone, Copy, PartialEq, Eq, Structural, Debug)]
pub enum KeyPress {
    Plain { key: Key },
}

/// An input event. Events other than recognised key presses leave the
/// buffer untouched and signal the caller to try other handlers.
#[derive(Clone, Copy, PartialEq, Eq, Structural, Debug)]
pub enum InputEvent {
    Keyboard(KeyPress),
    Resize(Size),
    Mouse(Position),
}

impl InputEvent {
    /// Whether this event is one of the caret-movement keys that stay
    /// allowed in read-only mode.
    pub open spec fn spec_is_navigation(self) -> bool {
        match self {
            InputEvent::Keyboard(KeyPress::Plain { key: Key::SpecialKey(k) }) => match k {
                SpecialKey::Up
                | SpecialKey::Down
                | SpecialKey::Left
                | SpecialKey::Right
                | SpecialKey::Home
                | SpecialKey::End
                | SpecialKey::PageUp
                | SpecialKey::PageDown => true,
                _ => false,
            },
            _ => false,
        }
    }

    pub fn is_navigation(&self) -> (r: bool)
        ensures
            r == self.spec_is_navigation(),
    {
        match self {
            InputEvent::Keyboard(KeyPress::Plain { key: Key::SpecialKey(k) }) => match k {
                SpecialKey::Up
                | SpecialKey::Down
                | SpecialKey::Left
                | SpecialKey::Right
                | SpecialKey::Home
                | SpecialKey::End
                | SpecialKey::PageUp
                | SpecialKey::PageDown => true,
                _ => false,
            },
            _ => false,
        }
    }
}

} // verus!
