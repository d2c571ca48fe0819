//! The command prompt: a single-line editor that is driven by key events
//! and gives at most one command for each of them.
//!
//! The text is stored as a `String` and the cursor as a byte offset into it.
//! The offset always lies on a character boundary; every edit is stated over
//! the characters of the line.

use crate::command::{emitted, Command, CommandView};
use crate::key::{KeyClass, KeyEvent};
use crate::line::{space_edge, word_edge, PromptView};
use crate::terminal::{clear_line_sequence, clear_line_text, goto_sequence, goto_text};
use crate::text::{
    chars_before, index_of, insert_at, lemma_boundary_index, lemma_index_of,
    lemma_offset_monotone, next_boundary, on_boundary, prev_boundary, push_char, remove_span,
    space_at, text_len,
};
use vstd::prelude::*;

verus! {

/// The marker that leads the status line.
pub const MARKER: char = ':';

/// The screen column, counted from one, at which the cursor of a line is
/// shown when `position` characters stand before it: behind the marker and
/// those characters, and no further right than the last column that a
/// terminal can address.
pub open spec fn cursor_column(position: nat) -> u16 {
    if position + 2 <= u16::MAX {
        (position + 2) as u16
    } else {
        u16::MAX
    }
}

/// The status line of a prompt on screen row `row`, as the text that is sent
/// to the terminal: go to the start of the row, clear it, write the marker
/// and the text, and put the terminal's cursor where the line's cursor is.
pub open spec fn status_line(line: PromptView, row: u16) -> Seq<char> {
    goto_text(1, row) + clear_line_text() + seq![MARKER] + line.buffer + goto_text(
        cursor_column(line.position),
        row,
    )
}

/// The state of the prompt.
#[derive(Debug)]
pub struct CommandPrompt {
    dex: usize,
    chars: String,
}

impl View for CommandPrompt {
    type V = PromptView;

    closed spec fn view(&self) -> PromptView {
        PromptView {
            buffer: self.chars@,
            position: index_of(self.chars@, self.dex as int) as nat,
        }
    }
}

impl Default for CommandPrompt {
    fn default() -> (prompt: CommandPrompt)
        ensures
            prompt.wf(),
            prompt@ == PromptView::empty(),
    {
        CommandPrompt::new()
    }
}

impl CommandPrompt {
    /// The cursor lies on a character boundary of the text.
    pub closed spec fn wf(&self) -> bool {
        on_boundary(self.chars@, self.dex as int)
    }

    /// In a well-formed prompt the cursor stands inside the text or at its
    /// end.
    pub proof fn lemma_wf(&self)
        requires
            self.wf(),
        ensures
            self@.valid(),
    {
        lemma_boundary_index(self.chars@, self.dex as int);
    }

    /// An empty prompt with the cursor at the start.
    pub fn new() -> (prompt: CommandPrompt)
        ensures
            prompt.wf(),
            prompt@ == PromptView::empty(),
    {
        let prompt = CommandPrompt { dex: 0, chars: String::new() };
        proof {
            lemma_index_of(prompt.chars@, 0);
            lemma_offset_monotone(prompt.chars@, 0, 0);
        }
        prompt
    }

    /// The text of the line.
    pub fn buffer(&self) -> (text: &str)
        ensures
            text@ == self@.buffer,
    {
        self.chars.as_str()
    }

    /// The cursor as a byte offset into the text.
    pub fn cursor(&self) -> (at: usize)
        requires
            self.wf(),
        ensures
            at == self@.cursor(),
    {
        proof {
            lemma_boundary_index(self.chars@, self.dex as int);
        }
        self.dex
    }

    /// The number of characters before the cursor.
    pub fn position(&self) -> (k: usize)
        requires
            self.wf(),
        ensures
            k == self@.position,
    {
        proof {
            self.lemma_wf();
        }
        chars_before(self.chars.as_str(), self.dex)
    }

    /// The screen column at which the cursor is shown.
    pub fn column(&self) -> (column: u16)
        requires
            self.wf(),
        ensures
            column == cursor_column(self@.position),
    {
        let position = self.position();
        if position <= 0xfffd {
            (position + 2) as u16
        } else {
            u16::MAX
        }
    }

    /// Draws the prompt as the status line of screen row `row`: gives the
    /// text that, written to the terminal, shows it. The prompt stays as it
    /// is.
    pub fn render(&mut self, row: u16) -> (line: String)
        requires
            old(self).wf(),
        ensures
            final(self).wf(),
            final(self)@ == old(self)@,
            line@ == status_line(old(self)@, row),
    {
        let column = self.column();
        let mut line = goto_sequence(1, row);
        let clear = clear_line_sequence();
        line.append(clear.as_str());
        push_char(&mut line, MARKER);
        line.append(self.chars.as_str());
        let goto = goto_sequence(column, row);
        line.append(goto.as_str());
        line
    }

    /// Handles one key: edits the line and says which command, if any, the
    /// key gives rise to.
    pub fn handle_input(&mut self, input: &KeyEvent) -> (cmd: Option<Command>)
        requires
            old(self).wf(),
        ensures
            final(self).wf(),
            final(self)@ == old(self)@.step(*input),
            emitted(cmd) == old(self)@.emits(*input),
    {
        match input.classify() {
            KeyClass::Insert(c) => self.new_key(c),
            KeyClass::Enter => self.finalize(),
            KeyClass::Backspace => self.back(),
            KeyClass::BackWord => self.back_word(),
            KeyClass::Delete => self.delete(),
            KeyClass::Left => self.left(),
            KeyClass::Right => self.right(),
            KeyClass::Up => Some(Command::MoveUp),
            KeyClass::Down => Some(Command::MoveDown),
            KeyClass::Ignored => None,
        }
    }

    /// Moves the cursor one character to the left, unless it stands at the
    /// start, and asks the view to do the same.
    pub fn left(&mut self) -> (cmd: Option<Command>)
        requires
            old(self).wf(),
        ensures
            final(self).wf(),
            final(self)@ == old(self)@.left(),
            cmd == Some(Command::MoveLeft),
    {
        let ghost text = self.chars@;
        let ghost k = index_of(text, self.dex as int);
        proof {
            lemma_boundary_index(text, self.dex as int);
            lemma_offset_monotone(text, 0, k);
        }
        if self.dex > 0 {
            self.dex = prev_boundary(self.chars.as_str(), self.dex);
            proof {
                lemma_index_of(text, k - 1);
            }
        }
        Some(Command::MoveLeft)
    }

    /// Moves the cursor one character to the right, unless it stands at the
    /// end, and asks the view to do the same.
    pub fn right(&mut self) -> (cmd: Option<Command>)
        requires
            old(self).wf(),
        ensures
            final(self).wf(),
            final(self)@ == old(self)@.right(),
            cmd == Some(Command::MoveRight),
    {
        let ghost text = self.chars@;
        let ghost k = index_of(text, self.dex as int);
        proof {
            lemma_boundary_index(text, self.dex as int);
            lemma_offset_monotone(text, k, text.len() as int);
        }
        if self.dex < text_len(self.chars.as_str()) {
            self.dex = next_boundary(self.chars.as_str(), self.dex);
            proof {
                lemma_index_of(text, k + 1);
            }
        }
        Some(Command::MoveRight)
    }

    /// Removes the character at the cursor, unless the cursor stands at the
    /// end. The cursor stays.
    pub fn delete(&mut self) -> (cmd: Option<Command>)
        requires
            old(self).wf(),
        ensures
            final(self).wf(),
            final(self)@ == old(self)@.delete(),
            cmd is None,
    {
        let ghost text = self.chars@;
        let ghost k = index_of(text, self.dex as int);
        proof {
            lemma_boundary_index(text, self.dex as int);
            lemma_offset_monotone(text, k, text.len() as int);
        }
        if self.dex < text_len(self.chars.as_str()) {
            let next = next_boundary(self.chars.as_str(), self.dex);
            proof {
                lemma_index_of(text, k + 1);
            }
            remove_span(&mut self.chars, self.dex, next);
            proof {
                let rest = self.chars@;
                assert(rest =~= text.remove(k));
                assert(rest.take(k) =~= text.take(k));
                lemma_index_of(rest, k);
            }
        }
        None
    }

    /// Removes the word before the cursor: first the spaces that stand
    /// directly before the cursor, then the characters before them up to,
    /// and without, the nearest space or the start of the line. The cursor
    /// moves to where the removed text began.
    pub fn back_word(&mut self) -> (cmd: Option<Command>)
        requires
            old(self).wf(),
        ensures
            final(self).wf(),
            final(self)@ == old(self)@.back_word(),
            cmd is None,
    {
        let ghost text = self.chars@;
        let ghost end = index_of(text, self.dex as int);
        proof {
            lemma_boundary_index(text, self.dex as int);
        }
        let mut mid: usize = self.dex;
        let mut scanning = true;
        while scanning && mid > 0
            invariant
                text == self.chars@,
                on_boundary(text, mid as int),
                0 <= index_of(text, mid as int) <= end <= text.len(),
                mid <= self.dex,
                space_edge(text, index_of(text, mid as int)) == space_edge(text, end),
                !scanning ==> space_edge(text, index_of(text, mid as int)) == index_of(
                    text,
                    mid as int,
                ),
            decreases mid + (if scanning { 1int } else { 0int }),
        {
            let before = prev_boundary(self.chars.as_str(), mid);
            proof {
                lemma_boundary_index(text, mid as int);
                lemma_index_of(text, index_of(text, mid as int) - 1);
            }
            if space_at(self.chars.as_str(), before) {
                mid = before;
            } else {
                scanning = false;
            }
        }
        proof {
            lemma_boundary_index(text, mid as int);
            lemma_offset_monotone(text, 0, index_of(text, mid as int));
        }
        let ghost gap = index_of(text, mid as int);
        let mut start: usize = mid;
        scanning = true;
        while scanning && start > 0
            invariant
                text == self.chars@,
                on_boundary(text, start as int),
                0 <= index_of(text, start as int) <= gap <= text.len(),
                start <= self.dex,
                word_edge(text, index_of(text, start as int)) == word_edge(text, gap),
                !scanning ==> word_edge(text, index_of(text, start as int)) == index_of(
                    text,
                    start as int,
                ),
            decreases start + (if scanning { 1int } else { 0int }),
        {
            let before = prev_boundary(self.chars.as_str(), start);
            proof {
                lemma_boundary_index(text, start as int);
                lemma_index_of(text, index_of(text, start as int) - 1);
            }
            if space_at(self.chars.as_str(), before) {
                scanning = false;
            } else {
                start = before;
            }
        }
        let ghost first = index_of(text, start as int);
        proof {
            lemma_boundary_index(text, start as int);
            lemma_offset_monotone(text, 0, first);
            assert(first == old(self)@.word_start());
        }
        remove_span(&mut self.chars, start, self.dex);
        self.dex = start;
        proof {
            let rest = self.chars@;
            assert(rest.take(first) =~= text.take(first));
            lemma_index_of(rest, first);
        }
        None
    }

    /// Removes the character before the cursor and moves the cursor back by
    /// it; does nothing when the cursor stands at the start.
    pub fn back(&mut self) -> (cmd: Option<Command>)
        requires
            old(self).wf(),
        ensures
            final(self).wf(),
            final(self)@ == old(self)@.back(),
            cmd is None,
    {
        let ghost text = self.chars@;
        let ghost k = index_of(text, self.dex as int);
        proof {
            lemma_boundary_index(text, self.dex as int);
            lemma_offset_monotone(text, 0, k);
        }
        if self.dex > 0 {
            let before = prev_boundary(self.chars.as_str(), self.dex);
            proof {
                lemma_index_of(text, k - 1);
            }
            remove_span(&mut self.chars, before, self.dex);
            self.dex = before;
            proof {
                let rest = self.chars@;
                assert(rest =~= text.remove(k - 1));
                assert(rest.take(k - 1) =~= text.take(k - 1));
                lemma_index_of(rest, k - 1);
            }
        }
        None
    }

    /// Puts a typed character into the line at the cursor and moves the
    /// cursor behind it.
    pub fn new_key(&mut self, chr: char) -> (cmd: Option<Command>)
        requires
            old(self).wf(),
        ensures
            final(self).wf(),
            final(self)@ == old(self)@.insert(chr),
            cmd is None,
    {
        let ghost text = self.chars@;
        let ghost k = index_of(text, self.dex as int);
        proof {
            lemma_boundary_index(text, self.dex as int);
        }
        insert_at(&mut self.chars, self.dex, chr);
        proof {
            let grown = self.chars@;
            assert(grown.take(k) =~= text.take(k));
            lemma_index_of(grown, k);
            lemma_offset_monotone(grown, k, k + 1);
            lemma_offset_monotone(grown, k + 1, k + 1);
            lemma_index_of(grown, k + 1);
        }
        self.dex = next_boundary(self.chars.as_str(), self.dex);
        None
    }

    /// Finishes the line: gives its text out verbatim. The line stays as it
    /// is.
    pub fn finalize(&mut self) -> (cmd: Option<Command>)
        requires
            old(self).wf(),
        ensures
            final(self).wf(),
            final(self)@ == old(self)@,
            emitted(cmd) == Some(CommandView::Out(old(self)@.buffer)),
    {
        Some(Command::Out(self.chars.clone()))
    }
}

} // verus!
