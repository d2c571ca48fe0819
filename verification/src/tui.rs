//! The decisions of the event merge loop.
//!
//! The loop listens to two sources, the terminal and the backend, and
//! performs what this module decides: for each event that it observes it
//! asks [`Tui::handle_event`] and gets back one [`Effect`] to carry out.
//! Waiting, sending and drawing are the loop's own; the state and every rule
//! are here.

use crate::command::{Command, CommandView, ParseCommandError, ParseCommandErrorView};
use crate::key::KeyEvent;
use crate::line::PromptView;
use crate::prompt::{status_line, CommandPrompt};
use vstd::prelude::*;

verus! {

/// One of the two sources of events.
#[derive(Debug, Clone, Copy, PartialEq, Eq, Structural)]
pub enum Source {
    Terminal,
    Backend,
}

/// The keys that switch between normal mode and command mode.
#[derive(Debug, Clone, Copy, PartialEq, Eq, Structural)]
pub struct Bindings {
    /// In normal mode, opens the prompt.
    pub prompt: KeyEvent,
    /// In command mode, closes the prompt and drops its line.
    pub cancel: KeyEvent,
}

/// What the loop observes.
#[derive(Debug, Clone, PartialEq, Eq)]
pub enum Event {
    /// A key from the terminal.
    Key(KeyEvent),
    /// A notification from the backend; the loop has brought its view of
    /// the document up to date.
    Notification,
    /// The source has ended.
    Closed(Source),
    /// A command to carry out: one that the key map made of a key, or one
    /// of the caller's own.
    Command(Command),
    /// A command line that could not be understood.
    Malformed(ParseCommandError),
}

/// An event with its texts as character sequences.
pub enum EventView {
    Key(KeyEvent),
    Notification,
    Closed(Source),
    Command(CommandView),
    Malformed(ParseCommandErrorView),
}

impl View for Event {
    type V = EventView;

    open spec fn view(&self) -> EventView {
        match *self {
            Event::Key(key) => EventView::Key(key),
            Event::Notification => EventView::Notification,
            Event::Closed(source) => EventView::Closed(source),
            Event::Command(cmd) => EventView::Command(cmd@),
            Event::Malformed(err) => EventView::Malformed(err@),
        }
    }
}

/// What the loop is to do after an event.
#[derive(Debug, Clone, PartialEq, Eq)]
pub enum Effect {
    /// Nothing.
    Idle,
    /// Draw the screen again.
    Render,
    /// Hand the key to the key map of normal mode, and what it makes of the
    /// key back to the loop: a command, or the failure to read one.
    Lookup(KeyEvent),
    /// Send the command to the backend.
    Request(Command),
    /// Show the failure on the status line and log it.
    Report(ParseCommandError),
    /// End the loop, and hand the text, if there is one, to whoever waits
    /// for the output.
    Stop(Option<String>),
}

/// An effect with its texts as character sequences.
pub enum EffectView {
    Idle,
    Render,
    Lookup(KeyEvent),
    Request(CommandView),
    Report(ParseCommandErrorView),
    Stop(Option<Seq<char>>),
}

impl View for Effect {
    type V = EffectView;

    open spec fn view(&self) -> EffectView {
        match *self {
            Effect::Idle => EffectView::Idle,
            Effect::Render => EffectView::Render,
            Effect::Lookup(key) => EffectView::Lookup(key),
            Effect::Request(cmd) => EffectView::Request(cmd@),
            Effect::Report(err) => EffectView::Report(err@),
            Effect::Stop(Some(text)) => EffectView::Stop(Some(text@)),
            Effect::Stop(None) => EffectView::Stop(None),
        }
    }
}

/// The state of the loop as a mathematical value.
pub struct TuiView {
    pub bindings: Bindings,
    /// False once the loop has ended.
    pub running: bool,
    /// The line of the prompt; present in command mode only.
    pub prompt: Option<PromptView>,
    /// The text that was finalized last.
    pub output: Option<Seq<char>>,
    /// The source that is asked first for the next event.
    pub turn: Source,
}

impl TuiView {
    /// The state in which a loop starts: running, in normal mode, with
    /// nothing finalized.
    pub open spec fn start(bindings: Bindings) -> TuiView {
        TuiView { bindings, running: true, prompt: None, output: None, turn: Source::Terminal }
    }

    /// The command that the event brings with it: its own, or the one that
    /// the prompt makes of a key.
    pub open spec fn command(self, event: EventView) -> Option<CommandView> {
        match event {
            EventView::Command(cmd) => Some(cmd),
            EventView::Key(key) => match self.prompt {
                Some(line) => if key == self.bindings.cancel {
                    None
                } else {
                    line.emits(key)
                },
                None => None,
            },
            _ => None,
        }
    }

    /// The text that the event finalizes, if it finalizes one.
    pub open spec fn finalized(self, event: EventView) -> Option<Seq<char>> {
        if self.running {
            match self.command(event) {
                Some(CommandView::Out(text)) => Some(text),
                _ => None,
            }
        } else {
            None
        }
    }

    /// The state after a command has been carried out. A finalized text is
    /// kept and ends command mode; a request to quit ends the loop.
    pub open spec fn dispatched(self, cmd: CommandView) -> TuiView {
        match cmd {
            CommandView::Out(text) => TuiView { prompt: None, output: Some(text), ..self },
            CommandView::Quit => TuiView { running: false, ..self },
            _ => self,
        }
    }

    /// What carrying out a command asks of the loop.
    pub open spec fn dispatch_effect(self, cmd: CommandView) -> EffectView {
        match cmd {
            CommandView::Out(_) => EffectView::Render,
            CommandView::Quit => EffectView::Stop(self.output),
            _ => EffectView::Request(cmd),
        }
    }

    /// The state after a key.
    pub open spec fn keyed(self, key: KeyEvent) -> TuiView {
        let turned = TuiView { turn: Source::Backend, ..self };
        match self.prompt {
            None => if key == self.bindings.prompt {
                TuiView { prompt: Some(PromptView::empty()), ..turned }
            } else {
                turned
            },
            Some(line) => if key == self.bindings.cancel {
                TuiView { prompt: None, ..turned }
            } else {
                let edited = TuiView { prompt: Some(line.step(key)), ..turned };
                match line.emits(key) {
                    Some(cmd) => edited.dispatched(cmd),
                    None => edited,
                }
            },
        }
    }

    /// What a key asks of the loop.
    pub open spec fn key_effect(self, key: KeyEvent) -> EffectView {
        match self.prompt {
            None => if key == self.bindings.prompt {
                EffectView::Render
            } else {
                EffectView::Lookup(key)
            },
            Some(line) => if key == self.bindings.cancel {
                EffectView::Render
            } else {
                match line.emits(key) {
                    Some(cmd) => self.dispatch_effect(cmd),
                    None => EffectView::Render,
                }
            },
        }
    }

    /// The state after an event. A loop that has ended stays as it is.
    pub open spec fn step(self, event: EventView) -> TuiView {
        if !self.running {
            self
        } else {
            match event {
                EventView::Key(key) => self.keyed(key),
                EventView::Notification => TuiView { turn: Source::Terminal, ..self },
                EventView::Closed(_) => TuiView { running: false, ..self },
                EventView::Command(cmd) => self.dispatched(cmd),
                EventView::Malformed(_) => self,
            }
        }
    }

    /// What an event asks of the loop. A loop that has ended asks nothing.
    pub open spec fn effect(self, event: EventView) -> EffectView {
        if !self.running {
            EffectView::Idle
        } else {
            match event {
                EventView::Key(key) => self.key_effect(key),
                EventView::Notification => EffectView::Render,
                EventView::Closed(_) => EffectView::Stop(self.output),
                EventView::Command(cmd) => self.dispatch_effect(cmd),
                EventView::Malformed(err) => EffectView::Report(err),
            }
        }
    }

    /// The state after a sequence of events, the first event first.
    pub open spec fn run(self, events: Seq<EventView>) -> TuiView
        decreases events.len(),
    {
        if events.len() == 0 {
            self
        } else {
            self.run(events.drop_last()).step(events.last())
        }
    }

    /// The text that was finalized last in a sequence of events; without
    /// one, the text that was there before.
    pub open spec fn last_output(self, events: Seq<EventView>) -> Option<Seq<char>>
        decreases events.len(),
    {
        if events.len() == 0 {
            self.output
        } else {
            match self.run(events.drop_last()).finalized(events.last()) {
                Some(text) => Some(text),
                None => self.last_output(events.drop_last()),
            }
        }
    }
}

/// The state of the loop.
#[derive(Debug)]
pub struct Tui {
    bindings: Bindings,
    running: bool,
    prompt: Option<CommandPrompt>,
    output: Option<String>,
    turn: Source,
}

impl View for Tui {
    type V = TuiView;

    closed spec fn view(&self) -> TuiView {
        TuiView {
            bindings: self.bindings,
            running: self.running,
            prompt: match self.prompt {
                Some(prompt) => Some(prompt@),
                None => None,
            },
            output: match self.output {
                Some(text) => Some(text@),
                None => None,
            },
            turn: self.turn,
        }
    }
}

impl Tui {
    /// The prompt, where there is one, is well-formed.
    pub closed spec fn wf(&self) -> bool {
        match self.prompt {
            Some(prompt) => prompt.wf(),
            None => true,
        }
    }

    /// A loop at its start.
    pub fn new(bindings: Bindings) -> (tui: Tui)
        ensures
            tui.wf(),
            tui@ == TuiView::start(bindings),
    {
        Tui { bindings, running: true, prompt: None, output: None, turn: Source::Terminal }
    }

    /// Whether the loop goes on.
    pub fn is_running(&self) -> (running: bool)
        ensures
            running == self@.running,
    {
        self.running
    }

    /// Whether the prompt is open.
    pub fn in_command_mode(&self) -> (open: bool)
        ensures
            open == self@.prompt is Some,
    {
        self.prompt.is_some()
    }

    /// The source to ask first for the next event: after an event of one
    /// source the other one, so that neither is kept waiting by the other.
    pub fn first_source(&self) -> (source: Source)
        ensures
            source == self@.turn,
    {
        self.turn
    }

    /// The text that was finalized last.
    pub fn output(&self) -> (text: Option<String>)
        ensures
            self@.output == match text {
                Some(t) => Some(t@),
                None => None,
            },
    {
        match &self.output {
            Some(text) => Some(text.clone()),
            None => None,
        }
    }

    /// The status line to draw on screen row `row`: that of the prompt in
    /// command mode, none in normal mode.
    pub fn render_prompt(&mut self, row: u16) -> (line: Option<String>)
        requires
            old(self).wf(),
        ensures
            final(self).wf(),
            final(self)@ == old(self)@,
            match old(self)@.prompt {
                Some(p) => line is Some && line->0@ == status_line(p, row),
                None => line is None,
            },
    {
        match &mut self.prompt {
            Some(prompt) => Some(prompt.render(row)),
            None => None,
        }
    }

    /// Carries out a command.
    pub fn handle_cmd(&mut self, cmd: Command) -> (effect: Effect)
        requires
            old(self).wf(),
        ensures
            final(self).wf(),
            final(self)@ == old(self)@.step(EventView::Command(cmd@)),
            effect@ == old(self)@.effect(EventView::Command(cmd@)),
    {
        if !self.running {
            return Effect::Idle;
        }
        self.dispatch(cmd)
    }

    /// Takes one event and says what the loop is to do.
    pub fn handle_event(&mut self, event: Event) -> (effect: Effect)
        requires
            old(self).wf(),
        ensures
            final(self).wf(),
            final(self)@ == old(self)@.step(event@),
            effect@ == old(self)@.effect(event@),
    {
        if !self.running {
            return Effect::Idle;
        }
        match event {
            Event::Key(key) => self.handle_key(key),
            Event::Notification => {
                self.turn = Source::Terminal;
                Effect::Render
            },
            Event::Closed(_) => {
                self.running = false;
                Effect::Stop(self.output())
            },
            Event::Command(cmd) => self.dispatch(cmd),
            Event::Malformed(err) => Effect::Report(err),
        }
    }

    /// Takes a key from the terminal: it opens or closes the prompt, goes
    /// to the open prompt, or is left to the key map of normal mode.
    fn handle_key(&mut self, key: KeyEvent) -> (effect: Effect)
        requires
            old(self).wf(),
            old(self)@.running,
        ensures
            final(self).wf(),
            final(self)@ == old(self)@.keyed(key),
            effect@ == old(self)@.key_effect(key),
    {
        self.turn = Source::Backend;
        let cancel = self.bindings.cancel;
        match &mut self.prompt {
            None => {
                if key == self.bindings.prompt {
                    self.prompt = Some(CommandPrompt::new());
                    Effect::Render
                } else {
                    Effect::Lookup(key)
                }
            },
            Some(prompt) => {
                if key == cancel {
                    self.prompt = None;
                    Effect::Render
                } else {
                    match prompt.handle_input(&key) {
                        Some(cmd) => self.dispatch(cmd),
                        None => Effect::Render,
                    }
                }
            },
        }
    }

    /// Carries out a command in a running loop: keeps a finalized text,
    /// ends the loop on a request to quit, and sends anything else on.
    fn dispatch(&mut self, cmd: Command) -> (effect: Effect)
        requires
            old(self).wf(),
        ensures
            final(self).wf(),
            final(self)@ == old(self)@.dispatched(cmd@),
            effect@ == old(self)@.dispatch_effect(cmd@),
    {
        match cmd {
            Command::Out(text) => {
                self.prompt = None;
                self.output = Some(text);
                Effect::Render
            },
            Command::Quit => {
                self.running = false;
                Effect::Stop(self.output())
            },
            other => Effect::Request(other),
        }
    }
}

} // verus!
