//! What holds of the command line whatever keys arrive, and of the loop
//! whatever it observes.

use crate::command::{CommandView, ParseCommandErrorView};
use crate::key::KeyEvent;
use crate::line::{space_edge, word_edge, PromptView};
use crate::text::{
    byte_len, lemma_byte_len_ascii, lemma_char_width, lemma_index_of, lemma_offset_monotone,
    lemma_offset_step, on_boundary,
};
use crate::tui::{Bindings, EffectView, EventView, Source, TuiView};
use vstd::prelude::*;
use vstd::utf8::is_ascii_chars;

verus! {

/// Every key of the sequence is a character key other than Enter.
pub open spec fn printable(keys: Seq<KeyEvent>) -> bool {
    forall|i: int| 0 <= i < keys.len() ==> (#[trigger] keys[i]).class() is Insert
}

/// The characters of a sequence of character keys, in order.
pub open spec fn characters(keys: Seq<KeyEvent>) -> Seq<char> {
    keys.map_values(|key: KeyEvent| key.class()->Insert_0)
}

/// Every key leaves the cursor inside the text or at its end.
pub proof fn law_step_keeps_valid(line: PromptView, key: KeyEvent)
    requires
        line.valid(),
    ensures
        line.step(key).valid(),
{
    law_word_start(line);
}

/// Whatever keys arrive, the cursor stays inside the text or at its end.
pub proof fn law_replay_keeps_valid(line: PromptView, keys: Seq<KeyEvent>)
    requires
        line.valid(),
    ensures
        line.replay(keys).valid(),
    decreases keys.len(),
{
    if keys.len() > 0 {
        law_replay_keeps_valid(line, keys.drop_last());
        law_step_keeps_valid(line.replay(keys.drop_last()), keys.last());
    }
}

/// The byte offset of the cursor lies on a character boundary of the text
/// and within its encoding.
pub proof fn law_cursor_on_boundary(line: PromptView)
    requires
        line.valid(),
    ensures
        on_boundary(line.buffer, line.cursor() as int),
        0 <= line.cursor() <= byte_len(line.buffer),
{
    lemma_index_of(line.buffer, line.position as int);
    lemma_offset_monotone(line.buffer, 0, line.position as int);
}

/// An edit leaves the text before and behind the place that it touches as
/// it was.
pub proof fn law_edits_are_local(line: PromptView, c: char)
    requires
        line.valid(),
    ensures
        line.insert(c).buffer.take(line.position as int) == line.buffer.take(line.position as int),
        line.insert(c).buffer.skip(line.position as int + 1) == line.buffer.skip(
            line.position as int,
        ),
        line.position > 0 ==> line.back().buffer.take(line.position - 1) == line.buffer.take(
            line.position - 1,
        ) && line.back().buffer.skip(line.position - 1) == line.buffer.skip(line.position as int),
        line.position < line.buffer.len() ==> line.delete().buffer.take(line.position as int)
            == line.buffer.take(line.position as int) && line.delete().buffer.skip(
            line.position as int,
        ) == line.buffer.skip(line.position as int + 1),
        line.back_word().buffer.take(line.word_start()) == line.buffer.take(line.word_start()),
        line.back_word().buffer.skip(line.word_start()) == line.buffer.skip(line.position as int),
{
    let pos = line.position as int;
    assert(line.insert(c).buffer.take(pos) =~= line.buffer.take(pos));
    assert(line.insert(c).buffer.skip(pos + 1) =~= line.buffer.skip(pos));
    if pos > 0 {
        assert(line.back().buffer.take(pos - 1) =~= line.buffer.take(pos - 1));
        assert(line.back().buffer.skip(pos - 1) =~= line.buffer.skip(pos));
    }
    if pos < line.buffer.len() {
        assert(line.delete().buffer.take(pos) =~= line.buffer.take(pos));
        assert(line.delete().buffer.skip(pos) =~= line.buffer.skip(pos + 1));
    }
    law_word_start(line);
    let start = line.word_start();
    assert(line.back_word().buffer.take(start) =~= line.buffer.take(start));
    assert(line.back_word().buffer.skip(start) =~= line.buffer.skip(pos));
}

/// Typing into a line puts the characters in at the cursor, in the order
/// in which they were typed, and leaves the cursor behind them.
pub proof fn law_typing_into(line: PromptView, keys: Seq<KeyEvent>)
    requires
        line.valid(),
        printable(keys),
    ensures
        line.replay(keys) == (PromptView {
            buffer: line.buffer.take(line.position as int) + characters(keys) + line.buffer.skip(
                line.position as int,
            ),
            position: line.position + keys.len(),
        }),
    decreases keys.len(),
{
    let pos = line.position as int;
    let head = line.buffer.take(pos);
    let tail = line.buffer.skip(pos);
    let chars = characters(keys);
    if keys.len() == 0 {
        assert(head + chars + tail =~= line.buffer);
    } else {
        let init = keys.drop_last();
        let c = keys.last().class()->Insert_0;
        assert(chars.drop_last() =~= characters(init));
        assert(chars.last() == c);
        law_typing_into(line, init);
        let before = line.replay(init);
        assert(before.step(keys.last()) == before.insert(c));
        assert((head + characters(init) + tail).insert(pos + init.len(), c) =~= head + chars
            + tail);
    }
}

/// When nothing but characters is typed into an empty prompt, the text is
/// those characters in order and the cursor stands behind them: its
/// character position is their number, and its byte offset the length of
/// their encoding, which is their number too exactly when all of them are
/// ASCII characters.
pub proof fn law_typing(keys: Seq<KeyEvent>)
    requires
        printable(keys),
    ensures
        PromptView::empty().replay(keys) == (PromptView {
            buffer: characters(keys),
            position: keys.len(),
        }),
        PromptView::empty().replay(keys).cursor() == byte_len(characters(keys)),
        PromptView::empty().replay(keys).cursor() == keys.len() <==> is_ascii_chars(
            characters(keys),
        ),
{
    let line = PromptView::empty();
    let chars = characters(keys);
    law_typing_into(line, keys);
    assert(line.buffer.take(0) + chars + line.buffer.skip(0) =~= chars);
    assert(chars.take(chars.len() as int) =~= chars);
    lemma_byte_len_ascii(chars);
}

/// Backspace with the cursor at the start, and so on an empty line, changes
/// nothing and gives no command.
pub proof fn law_back_at_start(line: PromptView)
    requires
        line.position == 0,
    ensures
        line.back() == line,
        line.step(KeyEvent::Backspace) == line,
        line.step(KeyEvent::Ctrl('h')) == line,
        line.emits(KeyEvent::Backspace) is None,
        line.emits(KeyEvent::Ctrl('h')) is None,
{
}

/// Delete with the cursor at the end changes nothing and gives no command.
pub proof fn law_delete_at_end(line: PromptView)
    requires
        line.position == line.buffer.len(),
    ensures
        line.delete() == line,
        line.step(KeyEvent::Delete) == line,
        line.emits(KeyEvent::Delete) is None,
{
}

/// A character that is typed and then removed where it was put leaves the
/// line as it was, text and cursor: removed by Backspace, or by Delete
/// after the cursor has gone back to where the character stands.
pub proof fn law_insert_then_remove(line: PromptView, c: char)
    requires
        line.valid(),
    ensures
        line.insert(c).back() == line,
        line.insert(c).left().delete() == line,
{
    let pos = line.position as int;
    assert(line.buffer.insert(pos, c).remove(pos) =~= line.buffer);
}

/// The removal of a word starts where the definition in words says: it
/// takes the spaces directly before the cursor and, before them, what is
/// no space, and stops behind a space or at the start of the line.
pub proof fn law_word_start(line: PromptView)
    requires
        line.valid(),
    ensures
        0 <= line.word_start() <= space_edge(line.buffer, line.position as int) <= line.position,
        forall|i: int|
            space_edge(line.buffer, line.position as int) <= i < line.position
                ==> line.buffer[i] == ' ',
        forall|i: int|
            line.word_start() <= i < space_edge(line.buffer, line.position as int)
                ==> line.buffer[i] != ' ',
        line.word_start() == 0 || line.buffer[line.word_start() - 1] == ' ',
        space_edge(line.buffer, line.position as int) == 0 || line.buffer[space_edge(
            line.buffer,
            line.position as int,
        ) - 1] != ' ',
{
    lemma_space_edge(line.buffer, line.position as int);
    lemma_word_edge(line.buffer, space_edge(line.buffer, line.position as int));
}

proof fn lemma_space_edge(s: Seq<char>, k: int)
    requires
        0 <= k <= s.len(),
    ensures
        0 <= space_edge(s, k) <= k,
        forall|i: int| space_edge(s, k) <= i < k ==> s[i] == ' ',
        space_edge(s, k) == 0 || s[space_edge(s, k) - 1] != ' ',
    decreases k,
{
    if 0 < k && s[k - 1] == ' ' {
        lemma_space_edge(s, k - 1);
    }
}

proof fn lemma_word_edge(s: Seq<char>, k: int)
    requires
        0 <= k <= s.len(),
    ensures
        0 <= word_edge(s, k) <= k,
        forall|i: int| word_edge(s, k) <= i < k ==> s[i] != ' ',
        word_edge(s, k) == 0 || s[word_edge(s, k) - 1] == ' ',
    decreases k,
{
    if 0 < k && s[k - 1] != ' ' {
        lemma_word_edge(s, k - 1);
    }
}

/// Enter gives exactly the command that hands the text out verbatim,
/// whatever the text is, and leaves the line as it is.
pub proof fn law_enter(line: PromptView)
    ensures
        line.emits(KeyEvent::Char('\n')) == Some(CommandView::Out(line.buffer)),
        line.step(KeyEvent::Char('\n')) == line,
{
}

/// The arrow keys leave the text alone. Up and Down leave the cursor too
/// and ask the view to move a line; Left and Right ask the view to move a
/// character and move the cursor by exactly one character, unless it
/// stands at the start or at the end.
pub proof fn law_arrows(line: PromptView)
    requires
        line.valid(),
    ensures
        line.step(KeyEvent::Up) == line,
        line.step(KeyEvent::Down) == line,
        line.emits(KeyEvent::Up) == Some(CommandView::MoveUp),
        line.emits(KeyEvent::Down) == Some(CommandView::MoveDown),
        line.emits(KeyEvent::Left) == Some(CommandView::MoveLeft),
        line.emits(KeyEvent::Right) == Some(CommandView::MoveRight),
        line.step(KeyEvent::Left).buffer == line.buffer,
        line.step(KeyEvent::Right).buffer == line.buffer,
        line.step(KeyEvent::Left).position == if line.position > 0 {
            line.position - 1
        } else {
            0int
        },
        line.step(KeyEvent::Right).position == if line.position < line.buffer.len() {
            line.position + 1
        } else {
            line.buffer.len()
        },
{
}

/// Left and Right move the byte offset of the cursor by the width of the
/// character that the cursor passes, which is between one and four bytes.
pub proof fn law_arrows_pass_one_character(line: PromptView)
    requires
        line.valid(),
    ensures
        line.position > 0 ==> line.cursor() - line.left().cursor() == byte_len(
            seq![line.buffer[line.position - 1]],
        ) && 1 <= line.cursor() - line.left().cursor() <= 4,
        line.position < line.buffer.len() ==> line.right().cursor() - line.cursor() == byte_len(
            seq![line.buffer[line.position as int]],
        ) && 1 <= line.right().cursor() - line.cursor() <= 4,
{
    if line.position > 0 {
        lemma_offset_step(line.buffer, line.position - 1);
        lemma_char_width(line.buffer[line.position - 1]);
    }
    if line.position < line.buffer.len() {
        lemma_offset_step(line.buffer, line.position as int);
        lemma_char_width(line.buffer[line.position as int]);
    }
}

/// A loop that has ended stays ended, changes nothing and asks nothing.
pub proof fn law_terminated_is_absorbing(tui: TuiView, event: EventView)
    requires
        !tui.running,
    ensures
        tui.step(event) == tui,
        tui.effect(event) == EffectView::Idle,
{
}

/// A notification from the backend asks for the screen to be drawn again
/// and leaves the prompt, the mode and the finalized text as they are. So
/// does a command line that could not be understood, which is reported and
/// does not end the loop.
pub proof fn law_backend_leaves_prompt(tui: TuiView, err: ParseCommandErrorView)
    requires
        tui.running,
    ensures
        tui.step(EventView::Notification).prompt == tui.prompt,
        tui.step(EventView::Notification).output == tui.output,
        tui.step(EventView::Notification).running,
        tui.effect(EventView::Notification) == EffectView::Render,
        tui.step(EventView::Malformed(err)) == tui,
        tui.effect(EventView::Malformed(err)) == EffectView::Report(err),
{
}

/// After an event of one source the other source is asked first.
pub proof fn law_sources_take_turns(tui: TuiView, key: KeyEvent)
    requires
        tui.running,
    ensures
        tui.step(EventView::Key(key)).turn == Source::Backend,
        tui.step(EventView::Notification).turn == Source::Terminal,
{
}

/// After any events the loop holds the text that was finalized last, and
/// none if none was finalized.
pub proof fn law_output_is_last_finalized(tui: TuiView, events: Seq<EventView>)
    ensures
        tui.run(events).output == tui.last_output(events),
    decreases events.len(),
{
    if events.len() > 0 {
        law_output_is_last_finalized(tui, events.drop_last());
    }
}

/// Where the event with index `last` finalizes a text and no later event
/// does, that text is the one that was finalized last.
pub proof fn law_last_output_found(tui: TuiView, events: Seq<EventView>, last: int)
    requires
        0 <= last < events.len(),
        tui.run(events.take(last)).finalized(events[last]) is Some,
        forall|i: int|
            last < i < events.len() ==> (#[trigger] tui.run(events.take(i))).finalized(events[i])
                is None,
    ensures
        tui.last_output(events) == tui.run(events.take(last)).finalized(events[last]),
    decreases events.len(),
{
    let init = events.drop_last();
    assert(events.take(events.len() - 1) =~= init);
    if last < events.len() - 1 {
        assert(tui.run(events.take(events.len() - 1)).finalized(events[events.len() - 1]) is None);
        assert(init.take(last) =~= events.take(last));
        assert forall|i: int| last < i < init.len() implies (#[trigger] tui.run(
            init.take(i),
        )).finalized(init[i]) is None by {
            assert(init.take(i) =~= events.take(i));
        }
        law_last_output_found(tui, init, last);
    }
}

/// No event of the sequence finalizes a text.
pub open spec fn nothing_finalized(tui: TuiView, events: Seq<EventView>) -> bool {
    forall|i: int|
        0 <= i < events.len() ==> (#[trigger] tui.run(events.take(i))).finalized(events[i])
            is None
}

/// Where nothing was finalized there is no output.
pub proof fn law_no_output_without_finalize(bindings: Bindings, events: Seq<EventView>)
    requires
        nothing_finalized(TuiView::start(bindings), events),
    ensures
        TuiView::start(bindings).last_output(events) is None,
    decreases events.len(),
{
    let tui = TuiView::start(bindings);
    if events.len() > 0 {
        let init = events.drop_last();
        assert forall|i: int| 0 <= i < init.len() implies (#[trigger] tui.run(
            init.take(i),
        )).finalized(init[i]) is None by {
            assert(init.take(i) =~= events.take(i));
        }
        law_no_output_without_finalize(bindings, init);
        assert(events.take(events.len() - 1) =~= init);
        assert(tui.run(events.take(events.len() - 1)).finalized(events[events.len() - 1]) is None);
    }
}

/// When a source closes, the loop ends. If it was still running, it hands
/// out exactly the text that was finalized last since the start, and
/// nothing if no text was finalized.
pub proof fn law_disconnect(bindings: Bindings, events: Seq<EventView>, source: Source)
    ensures
        !TuiView::start(bindings).run(events).step(EventView::Closed(source)).running,
        TuiView::start(bindings).run(events).running ==> TuiView::start(bindings).run(
            events,
        ).effect(EventView::Closed(source)) == EffectView::Stop(
            TuiView::start(bindings).last_output(events),
        ),
        TuiView::start(bindings).run(events).running && nothing_finalized(
            TuiView::start(bindings),
            events,
        ) ==> TuiView::start(bindings).run(events).effect(EventView::Closed(source))
            == EffectView::Stop(None),
{
    law_output_is_last_finalized(TuiView::start(bindings), events);
    if nothing_finalized(TuiView::start(bindings), events) {
        law_no_output_without_finalize(bindings, events);
    }
}

/// A request to quit ends a running loop in the same way: it hands out
/// exactly the text that was finalized last since the start.
pub proof fn law_quit(bindings: Bindings, events: Seq<EventView>)
    requires
        TuiView::start(bindings).run(events).running,
    ensures
        !TuiView::start(bindings).run(events).step(EventView::Command(CommandView::Quit)).running,
        TuiView::start(bindings).run(events).effect(EventView::Command(CommandView::Quit))
            == EffectView::Stop(TuiView::start(bindings).last_output(events)),
{
    law_output_is_last_finalized(TuiView::start(bindings), events);
}

} // verus!
