//! The command model: the closed set of intents that the front-end hands to
//! its dispatch loop, and the reasons for which a command line is refused.

use vstd::prelude::*;

verus! {

/// An intent derived from user input. A command is built once and consumed
/// once by the dispatch loop.
#[derive(Debug, Clone, PartialEq, Eq)]
pub enum Command {
    /// Open the file at the given path, or an empty buffer without one.
    Open(Option<String>),
    /// Select the theme with the given name.
    SetTheme(String),
    /// Move the view's cursor one line up.
    MoveUp,
    /// Move the view's cursor one line down.
    MoveDown,
    /// Move the view's cursor one character left.
    MoveLeft,
    /// Move the view's cursor one character right.
    MoveRight,
    /// Hand the given text out verbatim.
    Out(String),
    /// End the session.
    Quit,
}

/// A command with its texts as character sequences.
pub enum CommandView {
    Open(Option<Seq<char>>),
    SetTheme(Seq<char>),
    MoveUp,
    MoveDown,
    MoveLeft,
    MoveRight,
    Out(Seq<char>),
    Quit,
}

impl View for Command {
    type V = CommandView;

    open spec fn view(&self) -> CommandView {
        match *self {
            Command::Open(Some(path)) => CommandView::Open(Some(path@)),
            Command::Open(None) => CommandView::Open(None),
            Command::SetTheme(name) => CommandView::SetTheme(name@),
            Command::MoveUp => CommandView::MoveUp,
            Command::MoveDown => CommandView::MoveDown,
            Command::MoveLeft => CommandView::MoveLeft,
            Command::MoveRight => CommandView::MoveRight,
            Command::Out(text) => CommandView::Out(text@),
            Command::Quit => CommandView::Quit,
        }
    }
}

/// The view of a command that may be absent.
pub open spec fn emitted(cmd: Option<Command>) -> Option<CommandView> {
    match cmd {
        Some(c) => Some(c@),
        None => None,
    }
}

/// Why a command line could not be turned into a [`Command`]. The text that
/// each variant carries is what a message to the user quotes.
#[derive(Debug, Clone, PartialEq, Eq)]
pub enum ParseCommandError {
    /// The line names no known command; carries the word that was read.
    UnknownVerb(String),
    /// The command needs an argument and none was given; carries the command.
    MissingArgument(String),
    /// The argument cannot be understood; carries the argument.
    MalformedArgument(String),
}

/// A parse failure with its text as a character sequence.
pub enum ParseCommandErrorView {
    UnknownVerb(Seq<char>),
    MissingArgument(Seq<char>),
    MalformedArgument(Seq<char>),
}

impl ParseCommandErrorView {
    /// The message that tells the user what was wrong: a few words on the
    /// kind of failure, then the text that the failure carries.
    pub open spec fn message(self) -> Seq<char> {
        match self {
            ParseCommandErrorView::UnknownVerb(word) => "unknown command: "@ + word,
            ParseCommandErrorView::MissingArgument(verb) => "missing argument for: "@ + verb,
            ParseCommandErrorView::MalformedArgument(arg) => "malformed argument: "@ + arg,
        }
    }
}

impl View for ParseCommandError {
    type V = ParseCommandErrorView;

    open spec fn view(&self) -> ParseCommandErrorView {
        match *self {
            ParseCommandError::UnknownVerb(word) => ParseCommandErrorView::UnknownVerb(word@),
            ParseCommandError::MissingArgument(verb) => ParseCommandErrorView::MissingArgument(
                verb@,
            ),
            ParseCommandError::MalformedArgument(arg) => ParseCommandErrorView::MalformedArgument(
                arg@,
            ),
        }
    }
}

impl ParseCommandError {
    /// The message that tells the user what was wrong.
    pub fn message(&self) -> (text: String)
        ensures
            text@ == self@.message(),
    {
        match self {
            ParseCommandError::UnknownVerb(word) => {
                let mut text = String::from_str("unknown command: ");
                text.append(word.as_str());
                text
            },
            ParseCommandError::MissingArgument(verb) => {
                let mut text = String::from_str("missing argument for: ");
                text.append(verb.as_str());
                text
            },
            ParseCommandError::MalformedArgument(arg) => {
                let mut text = String::from_str("malformed argument: ");
                text.append(arg.as_str());
                text
            },
        }
    }
}

} // verus!
