//! Key presses and the configurable bindings.
use vstd::prelude::*;

verus! {

#[derive(Debug, Clone, Copy, PartialEq, Eq, Hash, Structural)]
pub enum Key {
    Char(char),
    Ctrl(char),
    Enter,
    AltEnter,
    Esc,
    Tab,
    BackTab,
    Up,
    Down,
    Left,
    Right,
    Home,
    End,
    PageUp,
    PageDown,
    Backspace,
    Delete,
}

#[derive(Debug, Clone, Copy, PartialEq, Eq, Structural)]
pub struct KeyBindings {
    pub quit: Key,
    pub palette: Key,
}

impl Default for KeyBindings {
    fn default() -> (r: KeyBindings)
        ensures
            r == (KeyBindings { quit: Key::Ctrl('c'), palette: Key::Ctrl('p') }),
    {
        KeyBindings { quit: Key::Ctrl('c'), palette: Key::Ctrl('p') }
    }
}

} // verus!
