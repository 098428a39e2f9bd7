//! Window events, key codes and window configuration.

use vstd::prelude::*;
use crate::text::string_from_chars;

verus! {

/// Window event that the application handles.
#[derive(Debug, Clone, Copy, PartialEq, Eq, Structural)]
pub enum Event {
    /// Character input.
    Char(char),
    /// Key press or release with modifiers.
    Key { key: KeyCode, modifiers: Modifiers, pressed: bool },
    /// Window resized.
    Resize { width: u32, height: u32 },
    /// Window close requested.
    CloseRequested,
    /// Redraw needed.
    Redraw,
}

/// Key codes for special keys.
#[derive(Debug, Clone, Copy, PartialEq, Eq, Structural)]
pub enum KeyCode {
    Up,
    Down,
    Left,
    Right,
    Home,
    End,
    PageUp,
    PageDown,
    Backspace,
    Delete,
    Tab,
    Enter,
    Escape,
    Insert,
    F1,
    F2,
    F3,
    F4,
    F5,
    F6,
    F7,
    F8,
    F9,
    F10,
    F11,
    F12,
    Space,
    Character(char),
}

/// Modifier key state.
#[derive(Debug, Clone, Copy, PartialEq, Eq, Structural)]
pub struct Modifiers {
    pub shift: bool,
    pub ctrl: bool,
    pub alt: bool,
    pub meta: bool,
}

impl Default for Modifiers {
    fn default() -> (m: Self)
        ensures m == (Modifiers { shift: false, ctrl: false, alt: false, meta: false }),
    {
        Modifiers { shift: false, ctrl: false, alt: false, meta: false }
    }
}

/// Configuration for the window.
#[derive(Debug, Clone)]
pub struct WindowConfig {
    pub title: String,
    pub width: u32,
    pub height: u32,
}

impl Default for WindowConfig {
    fn default() -> (c: Self)
        ensures
            c.title@ == seq!['B', 'a', 's', 'i', 'l', 'i', 's', 'k'],
            c.width == 800,
            c.height == 600,
    {
        let name: [char; 8] = ['B', 'a', 's', 'i', 'l', 'i', 's', 'k'];
        assert(name@ =~= seq!['B', 'a', 's', 'i', 'l', 'i', 's', 'k']);
        WindowConfig { title: string_from_chars(&name), width: 800, height: 600 }
    }
}

} // verus!
