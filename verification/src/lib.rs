//! The input core of a terminal front-end for an editor whose text lives in
//! a separate backend process.
//!
//! - [`command`]: the intents that the front-end hands on, and the reasons
//!   for which a command line is refused.
//! - [`key`]: the key events that a terminal reports.
//! - [`text`]: character positions and byte offsets in UTF-8 text.
//! - [`line`]: the command line as a mathematical value, one function for
//!   each edit.
//! - [`prompt`]: the command prompt, a single-line editor over a `String`
//!   and a byte offset, and its status line.
//! - [`session`]: how a session starts.
//! - [`terminal`]: the escape sequences of the status line.
//! - [`tui`]: the decisions of the loop that merges terminal input and
//!   backend notifications.
//! - [`laws`]: what holds of the prompt and of the loop whatever arrives.

pub mod command;
pub mod key;
pub mod laws;
pub mod line;
pub mod prompt;
pub mod session;
pub mod terminal;
pub mod text;
pub mod tui;
