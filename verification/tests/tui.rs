use xi_term::command::{Command, ParseCommandError};
use xi_term::key::KeyEvent;
use xi_term::tui::{Bindings, Effect, Event, Source, Tui};

fn bindings() -> Bindings {
    Bindings { prompt: KeyEvent::Char(':'), cancel: KeyEvent::Esc }
}

fn key(tui: &mut Tui, key: KeyEvent) -> Effect {
    tui.handle_event(Event::Key(key))
}

fn type_text(tui: &mut Tui, text: &str) {
    for c in text.chars() {
        assert_eq!(key(tui, KeyEvent::Char(c)), Effect::Render);
    }
}

#[test]
fn a_loop_starts_running_in_normal_mode() {
    let tui = Tui::new(bindings());
    assert!(tui.is_running());
    assert!(!tui.in_command_mode());
    assert_eq!(tui.output(), None);
    assert_eq!(tui.first_source(), Source::Terminal);
}

#[test]
fn disconnect_without_output_delivers_nothing() {
    let mut tui = Tui::new(bindings());
    assert_eq!(key(&mut tui, KeyEvent::Char('x')), Effect::Lookup(KeyEvent::Char('x')));
    assert_eq!(tui.handle_event(Event::Notification), Effect::Render);
    assert_eq!(tui.handle_event(Event::Closed(Source::Backend)), Effect::Stop(None));
    assert!(!tui.is_running());
}

#[test]
fn terminal_disconnect_ends_the_loop_too() {
    let mut tui = Tui::new(bindings());
    assert_eq!(tui.handle_event(Event::Closed(Source::Terminal)), Effect::Stop(None));
    assert!(!tui.is_running());
}

#[test]
fn disconnect_delivers_the_finalized_text() {
    let mut tui = Tui::new(bindings());
    assert_eq!(key(&mut tui, KeyEvent::Char(':')), Effect::Render);
    assert!(tui.in_command_mode());
    type_text(&mut tui, "hello w\u{f6}rld");
    assert_eq!(key(&mut tui, KeyEvent::Char('\n')), Effect::Render);
    assert!(!tui.in_command_mode());
    assert_eq!(tui.output(), Some("hello w\u{f6}rld".to_string()));
    assert_eq!(
        tui.handle_event(Event::Closed(Source::Backend)),
        Effect::Stop(Some("hello w\u{f6}rld".to_string()))
    );
    assert!(!tui.is_running());
}

#[test]
fn the_last_finalized_text_wins() {
    let mut tui = Tui::new(bindings());
    key(&mut tui, KeyEvent::Char(':'));
    type_text(&mut tui, "first");
    key(&mut tui, KeyEvent::Char('\n'));
    key(&mut tui, KeyEvent::Char(':'));
    type_text(&mut tui, "second");
    key(&mut tui, KeyEvent::Char('\n'));
    key(&mut tui, KeyEvent::Char(':'));
    type_text(&mut tui, "dropped");
    assert_eq!(key(&mut tui, KeyEvent::Esc), Effect::Render);
    assert_eq!(
        tui.handle_event(Event::Closed(Source::Terminal)),
        Effect::Stop(Some("second".to_string()))
    );
}

#[test]
fn an_empty_line_is_an_output_too() {
    let mut tui = Tui::new(bindings());
    key(&mut tui, KeyEvent::Char(':'));
    assert_eq!(key(&mut tui, KeyEvent::Char('\n')), Effect::Render);
    assert_eq!(
        tui.handle_event(Event::Closed(Source::Backend)),
        Effect::Stop(Some(String::new()))
    );
}

#[test]
fn quit_ends_the_loop_and_delivers() {
    let mut tui = Tui::new(bindings());
    assert_eq!(tui.handle_cmd(Command::Out("kept".to_string())), Effect::Render);
    assert_eq!(tui.handle_cmd(Command::Quit), Effect::Stop(Some("kept".to_string())));
    assert!(!tui.is_running());
    let mut tui = Tui::new(bindings());
    assert_eq!(tui.handle_event(Event::Command(Command::Quit)), Effect::Stop(None));
    assert!(!tui.is_running());
}

#[test]
fn an_ended_loop_stays_ended() {
    let mut tui = Tui::new(bindings());
    tui.handle_cmd(Command::Out("text".to_string()));
    tui.handle_event(Event::Closed(Source::Backend));
    let turn = tui.first_source();
    assert_eq!(key(&mut tui, KeyEvent::Char(':')), Effect::Idle);
    assert_eq!(tui.handle_event(Event::Notification), Effect::Idle);
    assert_eq!(tui.handle_event(Event::Closed(Source::Terminal)), Effect::Idle);
    assert_eq!(tui.handle_cmd(Command::Out("late".to_string())), Effect::Idle);
    assert_eq!(tui.handle_cmd(Command::MoveUp), Effect::Idle);
    assert_eq!(
        tui.handle_event(Event::Malformed(ParseCommandError::UnknownVerb("x".to_string()))),
        Effect::Idle
    );
    assert!(!tui.is_running());
    assert!(!tui.in_command_mode());
    assert_eq!(tui.output(), Some("text".to_string()));
    assert_eq!(tui.first_source(), turn);
}

#[test]
fn commands_go_to_the_backend() {
    let mut tui = Tui::new(bindings());
    let commands = [
        Command::Open(Some("notes.txt".to_string())),
        Command::Open(None),
        Command::SetTheme("base16-eighties.dark".to_string()),
        Command::MoveUp,
        Command::MoveDown,
        Command::MoveLeft,
        Command::MoveRight,
    ];
    for cmd in commands.iter() {
        assert_eq!(tui.handle_cmd(cmd.clone()), Effect::Request(cmd.clone()));
        assert_eq!(tui.handle_event(Event::Command(cmd.clone())), Effect::Request(cmd.clone()));
    }
    assert!(tui.is_running());
    assert_eq!(tui.output(), None);
}

#[test]
fn keys_in_normal_mode_go_to_the_key_map() {
    let mut tui = Tui::new(bindings());
    for k in [KeyEvent::Char('a'), KeyEvent::Esc, KeyEvent::Up, KeyEvent::Char('\n'), KeyEvent::Other].iter() {
        assert_eq!(key(&mut tui, *k), Effect::Lookup(*k));
        assert!(!tui.in_command_mode());
    }
}

#[test]
fn arrows_in_command_mode_reach_the_view() {
    let mut tui = Tui::new(bindings());
    key(&mut tui, KeyEvent::Char(':'));
    type_text(&mut tui, "ab");
    assert_eq!(key(&mut tui, KeyEvent::Left), Effect::Request(Command::MoveLeft));
    assert_eq!(key(&mut tui, KeyEvent::Right), Effect::Request(Command::MoveRight));
    assert_eq!(key(&mut tui, KeyEvent::Up), Effect::Request(Command::MoveUp));
    assert_eq!(key(&mut tui, KeyEvent::Down), Effect::Request(Command::MoveDown));
    assert!(tui.in_command_mode());
    assert_eq!(
        tui.render_prompt(9),
        Some("\u{1b}[9;1H\u{1b}[2K:ab\u{1b}[9;4H".to_string())
    );
}

#[test]
fn the_prompt_key_is_typed_inside_the_prompt() {
    let mut tui = Tui::new(bindings());
    key(&mut tui, KeyEvent::Char(':'));
    assert_eq!(key(&mut tui, KeyEvent::Char(':')), Effect::Render);
    assert_eq!(
        tui.render_prompt(1),
        Some("\u{1b}[1;1H\u{1b}[2K::\u{1b}[1;3H".to_string())
    );
}

#[test]
fn cancel_drops_the_line() {
    let mut tui = Tui::new(bindings());
    key(&mut tui, KeyEvent::Char(':'));
    type_text(&mut tui, "half a comm");
    assert_eq!(key(&mut tui, KeyEvent::Esc), Effect::Render);
    assert!(!tui.in_command_mode());
    assert_eq!(tui.output(), None);
    assert_eq!(tui.render_prompt(1), None);
    key(&mut tui, KeyEvent::Char(':'));
    assert_eq!(
        tui.render_prompt(1),
        Some("\u{1b}[1;1H\u{1b}[2K:\u{1b}[1;2H".to_string())
    );
}

#[test]
fn notifications_leave_the_prompt_alone() {
    let mut tui = Tui::new(bindings());
    key(&mut tui, KeyEvent::Char(':'));
    type_text(&mut tui, "abc");
    let before = tui.render_prompt(3);
    assert_eq!(tui.handle_event(Event::Notification), Effect::Render);
    assert!(tui.in_command_mode());
    assert_eq!(tui.render_prompt(3), before);
    assert_eq!(tui.output(), None);
}

#[test]
fn malformed_lines_are_reported_and_the_loop_goes_on() {
    let errors = [
        ParseCommandError::UnknownVerb("frobnicate".to_string()),
        ParseCommandError::MissingArgument("theme".to_string()),
        ParseCommandError::MalformedArgument("12x".to_string()),
    ];
    let mut tui = Tui::new(bindings());
    key(&mut tui, KeyEvent::Char(':'));
    for err in errors.iter() {
        assert_eq!(tui.handle_event(Event::Malformed(err.clone())), Effect::Report(err.clone()));
        assert!(tui.is_running());
        assert!(tui.in_command_mode());
    }
}

#[test]
fn the_sources_take_turns() {
    let mut tui = Tui::new(bindings());
    key(&mut tui, KeyEvent::Char('a'));
    assert_eq!(tui.first_source(), Source::Backend);
    key(&mut tui, KeyEvent::Char('b'));
    assert_eq!(tui.first_source(), Source::Backend);
    tui.handle_event(Event::Notification);
    assert_eq!(tui.first_source(), Source::Terminal);
    tui.handle_cmd(Command::MoveUp);
    assert_eq!(tui.first_source(), Source::Terminal);
    key(&mut tui, KeyEvent::Char(':'));
    assert_eq!(tui.first_source(), Source::Backend);
}

#[test]
fn other_bindings_are_honoured() {
    let mut tui = Tui::new(Bindings { prompt: KeyEvent::Alt('x'), cancel: KeyEvent::Ctrl('c') });
    assert_eq!(key(&mut tui, KeyEvent::Char(':')), Effect::Lookup(KeyEvent::Char(':')));
    assert_eq!(key(&mut tui, KeyEvent::Alt('x')), Effect::Render);
    assert!(tui.in_command_mode());
    assert_eq!(key(&mut tui, KeyEvent::Esc), Effect::Render);
    assert!(tui.in_command_mode());
    assert_eq!(key(&mut tui, KeyEvent::Ctrl('c')), Effect::Render);
    assert!(!tui.in_command_mode());
}

#[test]
fn a_parse_failure_has_a_message() {
    assert_eq!(
        ParseCommandError::UnknownVerb("frobnicate".to_string()).message(),
        "unknown command: frobnicate"
    );
    assert_eq!(
        ParseCommandError::MissingArgument("theme".to_string()).message(),
        "missing argument for: theme"
    );
    assert_eq!(
        ParseCommandError::MalformedArgument("12x".to_string()).message(),
        "malformed argument: 12x"
    );
    assert_eq!(
        ParseCommandError::UnknownVerb(String::new()).message(),
        "unknown command: "
    );
}

#[test]
fn the_backend_defaults_to_xi_core() {
    assert_eq!(xi_term::session::backend_program(None), "xi-core");
    assert_eq!(
        xi_term::session::backend_program(Some("/opt/xi/core".to_string())),
        "/opt/xi/core"
    );
}

#[test]
fn input_is_read_when_no_file_is_named() {
    assert!(xi_term::session::reads_input(&None));
    assert!(!xi_term::session::reads_input(&Some("notes.txt".to_string())));
}

#[test]
fn a_session_opens_the_file_and_sets_the_theme() {
    let theme = Command::SetTheme("base16-eighties.dark".to_string());
    assert_eq!(
        xi_term::session::first_commands(Some("notes.txt".to_string()), None),
        (Command::Open(Some("notes.txt".to_string())), theme.clone())
    );
    assert_eq!(
        xi_term::session::first_commands(None, Some("/tmp/.tmpA1".to_string())),
        (Command::Open(Some("/tmp/.tmpA1".to_string())), theme.clone())
    );
    assert_eq!(
        xi_term::session::first_commands(
            Some("notes.txt".to_string()),
            Some("/tmp/.tmpA1".to_string())
        ),
        (Command::Open(Some("notes.txt".to_string())), theme.clone())
    );
    assert_eq!(
        xi_term::session::first_commands(None, None),
        (Command::Open(None), theme)
    );
}
