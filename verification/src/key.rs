//! Key events as the front-end reads them: a closed enumeration of the keys
//! that a terminal reports.

use vstd::prelude::*;

verus! {

/// One event from the terminal.
#[derive(Debug, Clone, Copy, PartialEq, Eq, Structural)]
pub enum KeyEvent {
    /// A character key; Enter arrives as the line feed character.
    Char(char),
    /// A character key pressed together with Ctrl.
    Ctrl(char),
    /// A character key pressed together with Alt.
    Alt(char),
    /// A function key, by its number.
    F(u8),
    Backspace,
    Delete,
    Insert,
    Left,
    Right,
    Up,
    Down,
    Home,
    End,
    PageUp,
    PageDown,
    BackTab,
    Esc,
    Null,
    /// Anything else that the terminal reports, such as a mouse event.
    Other,
}

/// What a key asks of a line editor.
#[derive(Debug, Clone, Copy, PartialEq, Eq, Structural)]
pub enum KeyClass {
    /// Put the character into the line.
    Insert(char),
    /// Finish the line.
    Enter,
    /// Remove the character before the cursor.
    Backspace,
    /// Remove the word before the cursor.
    BackWord,
    /// Remove the character at the cursor.
    Delete,
    Left,
    Right,
    Up,
    Down,
    /// The key means nothing to a line editor.
    Ignored,
}

impl KeyEvent {
    /// The class of the key: Enter is the line feed character, Ctrl-H stands
    /// for Backspace and Ctrl-W removes a word.
    pub open spec fn class(self) -> KeyClass {
        match self {
            KeyEvent::Char(c) => if c == '\n' {
                KeyClass::Enter
            } else {
                KeyClass::Insert(c)
            },
            KeyEvent::Backspace => KeyClass::Backspace,
            KeyEvent::Ctrl(c) => if c == 'h' {
                KeyClass::Backspace
            } else if c == 'w' {
                KeyClass::BackWord
            } else {
                KeyClass::Ignored
            },
            KeyEvent::Delete => KeyClass::Delete,
            KeyEvent::Left => KeyClass::Left,
            KeyEvent::Right => KeyClass::Right,
            KeyEvent::Up => KeyClass::Up,
            KeyEvent::Down => KeyClass::Down,
            _ => KeyClass::Ignored,
        }
    }

    /// The class of the key.
    pub fn classify(&self) -> (class: KeyClass)
        ensures
            class == self.class(),
    {
        match *self {
            KeyEvent::Char(c) => {
                if c == '\n' {
                    KeyClass::Enter
                } else {
                    KeyClass::Insert(c)
                }
            },
            KeyEvent::Backspace => KeyClass::Backspace,
            KeyEvent::Ctrl(c) => {
                if c == 'h' {
                    KeyClass::Backspace
                } else if c == 'w' {
                    KeyClass::BackWord
                } else {
                    KeyClass::Ignored
                }
            },
            KeyEvent::Delete => KeyClass::Delete,
            KeyEvent::Left => KeyClass::Left,
            KeyEvent::Right => KeyClass::Right,
            KeyEvent::Up => KeyClass::Up,
            KeyEvent::Down => KeyClass::Down,
            _ => KeyClass::Ignored,
        }
    }
}

} // verus!
