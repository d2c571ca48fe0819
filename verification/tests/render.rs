use xi_term::command::Command;
use xi_term::key::KeyEvent;
use xi_term::prompt::{CommandPrompt, MARKER};

fn typed(text: &str) -> CommandPrompt {
    let mut prompt = CommandPrompt::new();
    for c in text.chars() {
        prompt.handle_input(&KeyEvent::Char(c));
    }
    prompt
}

#[test]
fn the_marker_is_a_colon() {
    assert_eq!(MARKER, ':');
}

#[test]
fn render_writes_the_status_line() {
    let mut prompt = typed("abc");
    assert_eq!(prompt.render(5), "\u{1b}[5;1H\u{1b}[2K:abc\u{1b}[5;5H");
    assert_eq!(prompt.buffer(), "abc");
    assert_eq!(prompt.position(), 3);
}

#[test]
fn render_of_an_empty_prompt_shows_the_marker() {
    let mut prompt = CommandPrompt::new();
    assert_eq!(prompt.render(24), "\u{1b}[24;1H\u{1b}[2K:\u{1b}[24;2H");
}

#[test]
fn render_agrees_with_the_terminal_library() {
    let mut prompt = typed("quit");
    let expected = format!(
        "{}{}:{}{}",
        termion::cursor::Goto(1, 40),
        termion::clear::CurrentLine,
        "quit",
        termion::cursor::Goto(6, 40)
    );
    assert_eq!(prompt.render(40), expected);
}

#[test]
fn render_puts_the_cursor_where_the_line_cursor_is() {
    let mut prompt = typed("abcdef");
    prompt.handle_input(&KeyEvent::Left);
    prompt.handle_input(&KeyEvent::Left);
    assert_eq!(prompt.column(), 6);
    assert_eq!(prompt.render(1), "\u{1b}[1;1H\u{1b}[2K:abcdef\u{1b}[1;6H");
}

#[test]
fn render_counts_characters_for_the_column() {
    let mut prompt = typed("\u{e9}\u{4e16}\u{1f600}");
    assert_eq!(prompt.cursor(), 9);
    assert_eq!(prompt.column(), 5);
    assert_eq!(
        prompt.render(7),
        "\u{1b}[7;1H\u{1b}[2K:\u{e9}\u{4e16}\u{1f600}\u{1b}[7;5H"
    );
}

#[test]
fn render_with_large_numbers() {
    let mut prompt = typed("0123456789");
    assert_eq!(
        prompt.render(65535),
        "\u{1b}[65535;1H\u{1b}[2K:0123456789\u{1b}[65535;12H"
    );
}

#[test]
fn render_on_row_zero() {
    let mut prompt = typed("a");
    assert_eq!(prompt.render(0), "\u{1b}[0;1H\u{1b}[2K:a\u{1b}[0;3H");
}

#[test]
fn the_column_stops_at_the_last_one() {
    let mut prompt = CommandPrompt::new();
    let mut text = String::new();
    for _ in 0..65533 {
        prompt.new_key('a');
        text.push('a');
    }
    assert_eq!(prompt.column(), 65535);
    prompt.new_key('b');
    prompt.new_key('c');
    text.push_str("bc");
    assert_eq!(prompt.position(), 65535);
    assert_eq!(prompt.column(), 65535);
    assert_eq!(
        prompt.render(2),
        format!("\u{1b}[2;1H\u{1b}[2K:{}\u{1b}[2;65535H", text)
    );
    for _ in 0..3 {
        prompt.handle_input(&KeyEvent::Left);
    }
    assert_eq!(prompt.column(), 65534);
}

#[test]
fn render_leaves_the_line_for_enter() {
    let mut prompt = typed("w");
    let _ = prompt.render(3);
    assert_eq!(
        prompt.handle_input(&KeyEvent::Char('\n')),
        Some(Command::Out("w".to_string()))
    );
}
