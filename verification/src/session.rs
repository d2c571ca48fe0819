//! How a session starts: which backend program is run, and which commands
//! the loop is given first.

use crate::command::{Command, CommandView};
use vstd::prelude::*;

verus! {

/// The name of the backend program where none is chosen.
pub open spec fn default_backend() -> Seq<char> {
    "xi-core"@
}

/// The name of the theme that a session starts with.
pub open spec fn default_theme() -> Seq<char> {
    "base16-eighties.dark"@
}

/// The path that is opened first: the file that was named; without one, the
/// file that holds what came on standard input.
pub open spec fn first_path(file: Option<Seq<char>>, piped: Option<Seq<char>>) -> Option<
    Seq<char>,
> {
    match file {
        Some(path) => Some(path),
        None => piped,
    }
}

/// The backend program to run: the chosen one, or the default.
pub fn backend_program(chosen: Option<String>) -> (program: String)
    ensures
        program@ == match chosen {
            Some(name) => name@,
            None => default_backend(),
        },
{
    match chosen {
        Some(name) => name,
        None => String::from_str("xi-core"),
    }
}

/// Whether standard input is read as the text to edit: when no file is
/// named.
pub fn reads_input(file: &Option<String>) -> (reads: bool)
    ensures
        reads == file is None,
{
    file.is_none()
}

/// The two commands that the loop is given first: open the first path, then
/// select the theme.
pub fn first_commands(file: Option<String>, piped: Option<String>) -> (cmds: (Command, Command))
    ensures
        cmds.0@ == CommandView::Open(
            first_path(
                match file {
                    Some(path) => Some(path@),
                    None => None,
                },
                match piped {
                    Some(path) => Some(path@),
                    None => None,
                },
            ),
        ),
        cmds.1@ == CommandView::SetTheme(default_theme()),
{
    let path = match file {
        Some(path) => Some(path),
        None => piped,
    };
    (Command::Open(path), Command::SetTheme(String::from_str("base16-eighties.dark")))
}

} // verus!
