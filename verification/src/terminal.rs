//! Terminal events as the coordination core sees them.

use vstd::prelude::*;

verus! {

/// The key that a key event reports.
#[derive(Clone, Copy, Debug, PartialEq, Eq, Structural)]
pub enum KeyCode {
    Backspace,
    Enter,
    Left,
    Right,
    Up,
    Down,
    Home,
    End,
    PageUp,
    PageDown,
    Tab,
    BackTab,
    Delete,
    Insert,
    /// A function key, with its number.
    F(u8),
    /// A key that produces a character.
    Char(char),
    Null,
    Esc,
    CapsLock,
    ScrollLock,
    NumLock,
    PrintScreen,
    Pause,
    Menu,
    KeypadBegin,
    /// Any media key.
    Media,
    /// Any modifier key pressed on its own.
    Modifier,
}

/// One raw event of the terminal.
///
/// The set of kinds is closed. Only key events are interpreted by this crate;
/// every other kind is carried through unchanged and has no effect.
#[derive(Clone, Copy, Debug, PartialEq, Eq, Structural)]
pub enum Event {
    FocusGained,
    FocusLost,
    /// A key event, with the key it reports.
    Key(KeyCode),
    Mouse,
    Paste,
    /// The terminal was resized to this many columns and rows.
    Resize(u16, u16),
}

/// The character bound to quitting the application.
pub const QUIT_KEY: char = 'q';

/// The character bound to launching the demonstration task.
pub const LAUNCH_KEY: char = 't';

impl Event {
    /// The character of this event, if it is a key event for a character key.
    pub open spec fn typed(self) -> Option<char> {
        match self {
            Event::Key(KeyCode::Char(c)) => Some(c),
            _ => None,
        }
    }

    /// Whether this event asks to quit.
    pub open spec fn is_quit(self) -> bool {
        self.typed() == Some(QUIT_KEY)
    }

    /// Whether this event asks to launch the demonstration task.
    pub open spec fn is_launch(self) -> bool {
        self.typed() == Some(LAUNCH_KEY)
    }

    /// Returns the character of a character-key event, and `None` for every
    /// other event.
    pub fn typed_char(&self) -> (c: Option<char>)
        ensures
            c == self.typed(),
    {
        match self {
            Event::Key(KeyCode::Char(c)) => Some(*c),
            _ => None,
        }
    }
}

} // verus!
