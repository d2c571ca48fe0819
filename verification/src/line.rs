//! The command line as a mathematical value: its characters and the
//! character position of the cursor, with one function for each edit.

use crate::command::CommandView;
use crate::key::{KeyClass, KeyEvent};
use crate::text::offset_of;
use vstd::prelude::*;

verus! {

/// Start of the run of spaces that ends just before position `k`.
pub open spec fn space_edge(s: Seq<char>, k: int) -> int
    decreases k,
{
    if 0 < k <= s.len() && s[k - 1] == ' ' {
        space_edge(s, k - 1)
    } else {
        k
    }
}

/// Start of the run of characters other than the space that ends just before
/// position `k`.
pub open spec fn word_edge(s: Seq<char>, k: int) -> int
    decreases k,
{
    if 0 < k <= s.len() && s[k - 1] != ' ' {
        word_edge(s, k - 1)
    } else {
        k
    }
}

/// A command line: the text and the number of characters before the cursor.
pub struct PromptView {
    pub buffer: Seq<char>,
    pub position: nat,
}

impl PromptView {
    /// The line that a fresh prompt holds.
    pub open spec fn empty() -> PromptView {
        PromptView { buffer: Seq::empty(), position: 0 }
    }

    /// The cursor stands inside the text or at its end.
    pub open spec fn valid(self) -> bool {
        self.position <= self.buffer.len()
    }

    /// The cursor as a byte offset into the UTF-8 encoding of the text.
    pub open spec fn cursor(self) -> nat {
        offset_of(self.buffer, self.position as int)
    }

    /// A character typed at the cursor.
    pub open spec fn insert(self, c: char) -> PromptView {
        PromptView {
            buffer: self.buffer.insert(self.position as int, c),
            position: self.position + 1,
        }
    }

    /// The character before the cursor removed; nothing at the start.
    pub open spec fn back(self) -> PromptView {
        if self.position > 0 {
            PromptView {
                buffer: self.buffer.remove(self.position - 1),
                position: (self.position - 1) as nat,
            }
        } else {
            self
        }
    }

    /// The character at the cursor removed; nothing at the end.
    pub open spec fn delete(self) -> PromptView {
        if self.position < self.buffer.len() {
            PromptView { buffer: self.buffer.remove(self.position as int), position: self.position }
        } else {
            self
        }
    }

    /// The cursor one character to the left, unless at the start.
    pub open spec fn left(self) -> PromptView {
        if self.position > 0 {
            PromptView { buffer: self.buffer, position: (self.position - 1) as nat }
        } else {
            self
        }
    }

    /// The cursor one character to the right, unless at the end.
    pub open spec fn right(self) -> PromptView {
        if self.position < self.buffer.len() {
            PromptView { buffer: self.buffer, position: self.position + 1 }
        } else {
            self
        }
    }

    /// Where the removal of a word starts: back over the spaces before the
    /// cursor, then back over what is no space.
    pub open spec fn word_start(self) -> int {
        word_edge(self.buffer, space_edge(self.buffer, self.position as int))
    }

    /// The word before the cursor removed, with the spaces that follow it.
    pub open spec fn back_word(self) -> PromptView {
        PromptView {
            buffer: self.buffer.take(self.word_start()) + self.buffer.skip(self.position as int),
            position: self.word_start() as nat,
        }
    }

    /// The line after one key.
    pub open spec fn step(self, key: KeyEvent) -> PromptView {
        match key.class() {
            KeyClass::Insert(c) => self.insert(c),
            KeyClass::Backspace => self.back(),
            KeyClass::BackWord => self.back_word(),
            KeyClass::Delete => self.delete(),
            KeyClass::Left => self.left(),
            KeyClass::Right => self.right(),
            KeyClass::Enter | KeyClass::Up | KeyClass::Down | KeyClass::Ignored => self,
        }
    }

    /// The command that one key gives rise to, if any.
    pub open spec fn emits(self, key: KeyEvent) -> Option<CommandView> {
        match key.class() {
            KeyClass::Enter => Some(CommandView::Out(self.buffer)),
            KeyClass::Left => Some(CommandView::MoveLeft),
            KeyClass::Right => Some(CommandView::MoveRight),
            KeyClass::Up => Some(CommandView::MoveUp),
            KeyClass::Down => Some(CommandView::MoveDown),
            KeyClass::Insert(_)
            | KeyClass::Backspace
            | KeyClass::BackWord
            | KeyClass::Delete
            | KeyClass::Ignored => None,
        }
    }

    /// The line after a sequence of keys, the first key first.
    pub open spec fn replay(self, keys: Seq<KeyEvent>) -> PromptView
        decreases keys.len(),
    {
        if keys.len() == 0 {
            self
        } else {
            self.replay(keys.drop_last()).step(keys.last())
        }
    }
}

} // verus!
