//! What is shown of a text that rewrites its line, character by character and sequence by
//! sequence.
use crate::terminal;
use crate::terminal::Screen;
use crate::terminal_laws;
use vstd::prelude::*;

verus! {

/// What stays of a line when the spaces at its end are taken away.
pub proof fn law_trimming(line: Seq<char>)
    ensures
        ({
            let kept = terminal::trim_end_spaces(line);
            &&& kept.len() <= line.len()
            &&& kept == line.take(kept.len() as int)
            &&& kept.len() > 0 ==> kept.last() != ' '
            &&& forall|i: int| kept.len() <= i < line.len() ==> #[trigger] line[i] == ' '
        }),
    decreases line.len(),
{
    if line.len() > 0 && line.last() == ' ' {
        let shorter = line.drop_last();
        law_trimming(shorter);
        let kept = terminal::trim_end_spaces(line);
        assert(kept == line.take(kept.len() as int));
        assert forall|i: int| kept.len() <= i < line.len() implies #[trigger] line[i] == ' ' by {
            if i < shorter.len() {
                assert(line[i] == shorter[i]);
            }
        }
    } else {
        assert(line == line.take(line.len() as int));
    }
}

/// A text rewrites its line where it holds a carriage return, a backspace or an escape.
/// Other texts are shown as they are, and leave the screen that rendering leaves.
pub proof fn law_texts_that_rewrite(screen: Screen, text: Seq<char>)
    ensures
        terminal::rewrites(text) <==> text.contains('\r') || text.contains('\x08')
            || text.contains('\x1b'),
        text.contains('\r') || text.contains('\x08') || text.contains('\x1b') ==> screen.render(text)
            == screen.render_terminal(text),
        !text.contains('\r') && !text.contains('\x08') && !text.contains('\x1b') ==> {
            &&& screen.render(text).1 == text
            &&& screen.render(text).0 == screen.render_terminal(text).0
        },
{
    if text.contains('\r') {
        let i = choose|i: int| 0 <= i < text.len() && text[i] == '\r';
        assert(terminal::is_rewrite_control(text[i]));
    }
    if text.contains('\x08') {
        let i = choose|i: int| 0 <= i < text.len() && text[i] == '\x08';
        assert(terminal::is_rewrite_control(text[i]));
    }
    if text.contains('\x1b') {
        let i = choose|i: int| 0 <= i < text.len() && text[i] == '\x1b';
        assert(terminal::is_rewrite_control(text[i]));
    }
    if terminal::rewrites(text) {
        let i = choose|i: int| 0 <= i < text.len() && terminal::is_rewrite_control(#[trigger] text[i]);
        assert(text.contains(text[i]));
    } else {
        terminal_laws::law_interpret_plain(screen, Seq::empty(), text);
    }
}

/// Lines that were completed before stay in front of what a text completes.
pub proof fn law_lines_before_stay(screen: Screen, lines: Seq<char>, text: Seq<char>)
    ensures
        screen.interpret(lines, text).0 == screen.interpret(Seq::empty(), text).0,
        screen.interpret(lines, text).1 == lines + screen.interpret(Seq::empty(), text).1,
    decreases text.len(),
{
    let none = Seq::<char>::empty();
    if text.len() == 0 {
        assert(lines + none == lines);
    } else {
        let ch = text[0];
        let rest = text.drop_first();
        if ch == '\r' {
            law_lines_before_stay(screen.carriage_return(), lines, rest);
        } else if ch == '\n' {
            let line = terminal::trim_end_spaces(screen.line);
            law_lines_before_stay(Screen::blank(), (lines + line).push('\n'), rest);
            law_lines_before_stay(Screen::blank(), (none + line).push('\n'), rest);
            let more = Screen::blank().interpret(none, rest).1;
            assert((lines + line).push('\n') + more == lines + ((none + line).push('\n') + more));
        } else if ch == '\x08' {
            law_lines_before_stay(screen.left(), lines, rest);
        } else if ch == '\x1b' {
            terminal::lemma_escape_length(rest);
            let next = if terminal::escape_erases(rest) {
                screen.erase_to_end()
            } else {
                screen
            };
            law_lines_before_stay(next, lines, rest.skip(terminal::escape_length(rest)));
        } else {
            law_lines_before_stay(screen.put(ch), lines, rest);
        }
    }
}

/// What is shown of a text before its last line.
pub open spec fn completed(screen: Screen, text: Seq<char>) -> Seq<char> {
    let (after, shown) = screen.render_terminal(text);
    shown.take(shown.len() - terminal::trim_end_spaces(after.line).len())
}

proof fn lemma_completed(screen: Screen, text: Seq<char>)
    ensures
        completed(screen, text) == screen.interpret(Seq::empty(), text).1,
        screen.render_terminal(text).0 == screen.interpret(Seq::empty(), text).0,
{
    let (after, lines) = screen.interpret(Seq::empty(), text);
    let shown = lines + terminal::trim_end_spaces(after.line);
    assert(shown.take(lines.len() as int) == lines);
}

proof fn lemma_continued(screen: Screen, before: Seq<char>, behind: Seq<char>)
    requires
        !before.contains('\x1b'),
    ensures
        ({
            let middle = screen.render_terminal(before).0;
            let (after, shown) = middle.render_terminal(behind);
            screen.render_terminal(before + behind) == (
                after,
                completed(screen, before) + shown,
            )
        }),
{
    let none = Seq::<char>::empty();
    let (middle, lines) = screen.interpret(none, before);
    terminal_laws::law_interpret_append(screen, none, before, behind);
    law_lines_before_stay(middle, lines, behind);
    lemma_completed(screen, before);
    let (after, more) = middle.interpret(none, behind);
    let line = terminal::trim_end_spaces(after.line);
    assert((lines + more) + line == lines + (more + line));
}

/// Nothing written shows the line as it is.
pub proof fn law_nothing_written(screen: Screen)
    ensures
        screen.render_terminal(Seq::empty()) == (screen, terminal::trim_end_spaces(screen.line)),
{
    assert(Seq::<char>::empty() + terminal::trim_end_spaces(screen.line)
        == terminal::trim_end_spaces(screen.line));
}

/// What is shown ends with the last line as it stands, and before that stands every line
/// that was completed, each with its end.
pub proof fn law_last_line_is_shown(screen: Screen, text: Seq<char>)
    ensures
        ({
            let (after, shown) = screen.render_terminal(text);
            let line = terminal::trim_end_spaces(after.line);
            &&& shown.len() >= line.len()
            &&& shown == completed(screen, text) + line
            &&& completed(screen, text).len() > 0 ==> completed(screen, text).last() == '\n'
        }),
{
    lemma_completed(screen, text);
    lemma_lines_end(screen, Seq::empty(), text);
}

proof fn lemma_lines_end(screen: Screen, lines: Seq<char>, text: Seq<char>)
    requires
        lines.len() > 0 ==> lines.last() == '\n',
    ensures
        screen.interpret(lines, text).1.len() > 0 ==> screen.interpret(lines, text).1.last() == '\n',
    decreases text.len(),
{
    if text.len() > 0 {
        let ch = text[0];
        let rest = text.drop_first();
        if ch == '\r' {
            lemma_lines_end(screen.carriage_return(), lines, rest);
        } else if ch == '\n' {
            lemma_lines_end(
                Screen::blank(),
                (lines + terminal::trim_end_spaces(screen.line)).push('\n'),
                rest,
            );
        } else if ch == '\x08' {
            lemma_lines_end(screen.left(), lines, rest);
        } else if ch == '\x1b' {
            terminal::lemma_escape_length(rest);
            let next = if terminal::escape_erases(rest) {
                screen.erase_to_end()
            } else {
                screen
            };
            lemma_lines_end(next, lines, rest.skip(terminal::escape_length(rest)));
        } else {
            lemma_lines_end(screen.put(ch), lines, rest);
        }
    }
}

/// What one more character does to a text without escapes. A newline completes the line,
/// which stays shown. A carriage return and a backspace move the cursor and change nothing
/// that is shown. Every other character is written at the cursor, over the one there, and
/// only the last line changes.
pub proof fn law_one_more_character(screen: Screen, text: Seq<char>, ch: char)
    requires
        !text.contains('\x1b'),
        ch != '\x1b',
    ensures
        ({
            let (before, shown) = screen.render_terminal(text);
            let (after, shown_after) = screen.render_terminal(text.push(ch));
            if ch == '\n' {
                &&& after.line == Seq::<char>::empty()
                &&& after.column == 0
                &&& shown_after == shown.push('\n')
            } else if ch == '\r' {
                &&& after.line == before.line
                &&& after.column == 0
                &&& shown_after == shown
            } else if ch == '\x08' {
                &&& after.line == before.line
                &&& after.column == (if before.column > 0 {
                    before.column - 1
                } else {
                    0
                })
                &&& shown_after == shown
            } else {
                &&& after.line == (if before.column >= before.line.len() {
                    before.line.push(ch)
                } else {
                    before.line.update(before.column, ch)
                })
                &&& after.column == before.column + 1
                &&& shown_after == shown.take(
                    shown.len() - terminal::trim_end_spaces(before.line).len(),
                ) + terminal::trim_end_spaces(after.line)
            }
        }),
{
    let none = Seq::<char>::empty();
    let one = seq![ch];
    assert(text + one == text.push(ch));
    lemma_continued(screen, text, one);
    law_last_line_is_shown(screen, text);
    let before = screen.render_terminal(text).0;
    assert(one.drop_first() == none);
    let line = terminal::trim_end_spaces(before.line);
    reveal_with_fuel(Screen::interpret, 2);
    if ch == '\n' {
        assert(before.interpret(none, one) == (Screen::blank(), (none + line).push('\n')));
        assert((none + line).push('\n') + terminal::trim_end_spaces(none) == line.push('\n'));
        assert(completed(screen, text) + line.push('\n') == (completed(screen, text) + line).push(
            '\n',
        ));
    } else if ch == '\r' {
        assert(before.interpret(none, one) == (before.carriage_return(), none));
        assert(none + line == line);
    } else if ch == '\x08' {
        assert(before.interpret(none, one) == (before.left(), none));
        assert(none + line == line);
    } else {
        assert(before.interpret(none, one) == (before.put(ch), none));
        let written = terminal::trim_end_spaces(before.put(ch).line);
        assert(none + written == written);
    }
}

/// A text that ends with its line shows all of its lines, and what follows is shown behind
/// them, from a blank line on.
pub proof fn law_completed_lines_are_shown(screen: Screen, first: Seq<char>, second: Seq<char>)
    requires
        !first.contains('\x1b'),
        first.len() > 0,
        first.last() == '\n',
    ensures
        screen.render_terminal(first).0 == (Screen { line: Seq::empty(), column: 0 }),
        screen.render_terminal(first + second).1 == screen.render_terminal(first).1 + (Screen {
            line: Seq::empty(),
            column: 0,
        }).render_terminal(second).1,
{
    let start = first.drop_last();
    assert forall|i: int| 0 <= i < start.len() implies start[i] != '\x1b' by {
        assert(first.contains(first[i]));
    }
    assert(start.push('\n') == first);
    law_one_more_character(screen, start, '\n');
    let after = screen.render_terminal(first).0;
    assert(after == Screen::blank());
    lemma_continued(screen, first, second);
    law_last_line_is_shown(screen, first);
    assert(terminal::trim_end_spaces(after.line) == Seq::<char>::empty());
    assert(completed(screen, first) + Seq::<char>::empty() == completed(screen, first));
}

/// How many newlines a text holds.
pub open spec fn newlines(text: Seq<char>) -> nat
    decreases text.len(),
{
    if text.len() == 0 {
        0
    } else {
        newlines(text.drop_last()) + (if text.last() == '\n' {
            1nat
        } else {
            0
        })
    }
}

/// The text without its escape sequences.
pub open spec fn outside_escapes(text: Seq<char>) -> Seq<char>
    decreases text.len(),
{
    if text.len() == 0 {
        Seq::empty()
    } else if text[0] == '\x1b' {
        proof {
            terminal::lemma_escape_length(text.drop_first());
        }
        let rest = text.drop_first();
        outside_escapes(rest.skip(terminal::escape_length(rest)))
    } else {
        seq![text[0]] + outside_escapes(text.drop_first())
    }
}

proof fn lemma_newlines_append(first: Seq<char>, second: Seq<char>)
    ensures
        newlines(first + second) == newlines(first) + newlines(second),
    decreases second.len(),
{
    if second.len() == 0 {
        assert(first + second == first);
    } else {
        lemma_newlines_append(first, second.drop_last());
        assert((first + second).drop_last() == first + second.drop_last());
    }
}

proof fn lemma_no_newlines(text: Seq<char>)
    requires
        !text.contains('\n'),
    ensures
        newlines(text) == 0,
    decreases text.len(),
{
    if text.len() > 0 {
        assert(text.contains(text[text.len() - 1]));
        assert forall|i: int| 0 <= i < text.drop_last().len() implies text.drop_last()[i]
            != '\n' by {
            assert(text.contains(text[i]));
        }
        lemma_no_newlines(text.drop_last());
    }
}

proof fn lemma_newlines_kept(screen: Screen, text: Seq<char>)
    requires
        screen.wf(),
        !screen.line.contains('\n'),
    ensures
        newlines(screen.interpret(Seq::empty(), text).1) == newlines(outside_escapes(text)),
        !screen.interpret(Seq::empty(), text).0.line.contains('\n'),
    decreases text.len(),
{
    let none = Seq::<char>::empty();
    if text.len() > 0 {
        let ch = text[0];
        let rest = text.drop_first();
        if ch != '\x1b' {
            lemma_newlines_append(seq![ch], outside_escapes(rest));
            assert(seq![ch].drop_last() == none);
            assert(newlines(none) == 0);
            assert(newlines(seq![ch]) == if ch == '\n' {
                1nat
            } else {
                0
            });
        }
        if ch == '\r' {
            lemma_newlines_kept(screen.carriage_return(), rest);
        } else if ch == '\n' {
            let line = terminal::trim_end_spaces(screen.line);
            law_trimming(screen.line);
            assert forall|i: int| 0 <= i < line.len() implies line[i] != '\n' by {
                assert(line[i] == screen.line[i]);
                assert(screen.line.contains(screen.line[i]));
            }
            let head = (none + line).push('\n');
            assert(head.drop_last() == line);
            lemma_no_newlines(line);
            lemma_newlines_kept(Screen::blank(), rest);
            law_lines_before_stay(Screen::blank(), head, rest);
            lemma_newlines_append(head, Screen::blank().interpret(none, rest).1);
        } else if ch == '\x08' {
            lemma_newlines_kept(screen.left(), rest);
        } else if ch == '\x1b' {
            terminal::lemma_escape_length(rest);
            let next = if terminal::escape_erases(rest) {
                screen.erase_to_end()
            } else {
                screen
            };
            assert forall|i: int| 0 <= i < next.line.len() implies next.line[i] != '\n' by {
                assert(next.line[i] == screen.line[i]);
                assert(screen.line.contains(screen.line[i]));
            }
            lemma_newlines_kept(next, rest.skip(terminal::escape_length(rest)));
        } else {
            let next = screen.put(ch);
            assert forall|i: int| 0 <= i < next.line.len() implies next.line[i] != '\n' by {
                if next.line[i] != ch {
                    assert(next.line[i] == screen.line[i]);
                    assert(screen.line.contains(screen.line[i]));
                }
            }
            lemma_newlines_kept(next, rest);
        }
    }
}

/// As many lines are completed in what is shown as in the text, outside its escape
/// sequences.
pub proof fn law_every_line_is_counted(screen: Screen, text: Seq<char>)
    requires
        screen.wf(),
        !screen.line.contains('\n'),
    ensures
        newlines(screen.render_terminal(text).1) == newlines(outside_escapes(text)),
        !text.contains('\x1b') ==> newlines(screen.render_terminal(text).1) == newlines(text),
{
    lemma_newlines_kept(screen, text);
    let (after, lines) = screen.interpret(Seq::empty(), text);
    let line = terminal::trim_end_spaces(after.line);
    law_trimming(after.line);
    assert forall|i: int| 0 <= i < line.len() implies line[i] != '\n' by {
        assert(line[i] == after.line[i]);
        assert(after.line.contains(after.line[i]));
    }
    lemma_no_newlines(line);
    lemma_newlines_append(lines, line);
    if !text.contains('\x1b') {
        lemma_no_escapes(text);
    }
}

proof fn lemma_no_escapes(text: Seq<char>)
    requires
        !text.contains('\x1b'),
    ensures
        outside_escapes(text) == text,
    decreases text.len(),
{
    if text.len() > 0 {
        assert(text.contains(text[0]));
        let rest = text.drop_first();
        assert forall|i: int| 0 <= i < rest.len() implies rest[i] != '\x1b' by {
            assert(text.contains(text[i + 1]));
        }
        lemma_no_escapes(rest);
        assert(seq![text[0]] + rest == text);
    }
}

proof fn lemma_escape_step(screen: Screen, behind: Seq<char>)
    ensures
        ({
            let next = if terminal::escape_erases(behind) {
                Screen { line: screen.line.take(screen.column), column: screen.column }
            } else {
                screen
            };
            screen.render_terminal(seq!['\x1b'] + behind) == next.render_terminal(
                behind.skip(terminal::escape_length(behind)),
            )
        }),
{
    let text = seq!['\x1b'] + behind;
    assert(text.drop_first() == behind);
    terminal::lemma_escape_length(behind);
}

proof fn lemma_sequence_final_at(text: Seq<char>, from: int, at: int)
    requires
        0 <= from <= at <= text.len(),
        forall|i: int| from <= i < at ==> !('@' <= #[trigger] text[i] && text[i] <= '~'),
        at < text.len() ==> '@' <= text[at] && text[at] <= '~',
    ensures
        terminal::sequence_final(text, from) == at,
    decreases at - from,
{
    if from < at {
        assert(!('@' <= text[from] && text[from] <= '~'));
        lemma_sequence_final_at(text, from + 1, at);
    }
}

/// A control sequence from `ESC [` to the first character from `@` to `~` shows nothing of
/// itself. Where that character is `K` the line is cut off at the cursor, and every other
/// one changes nothing.
pub proof fn law_control_sequence(
    screen: Screen,
    before: Seq<char>,
    params: Seq<char>,
    last: char,
    rest: Seq<char>,
)
    requires
        !before.contains('\x1b'),
        forall|i: int| 0 <= i < params.len() ==> !('@' <= #[trigger] params[i] && params[i] <= '~'),
        '@' <= last <= '~',
    ensures
        ({
            let middle = screen.render_terminal(before).0;
            let next = if last == 'K' {
                Screen { line: middle.line.take(middle.column), column: middle.column }
            } else {
                middle
            };
            let (after, shown) = next.render_terminal(rest);
            screen.render_terminal(before + (seq!['\x1b', '['] + params + seq![last] + rest)) == (
                after,
                completed(screen, before) + shown,
            )
        }),
{
    let behind = seq!['['] + params + seq![last] + rest;
    let sequence = seq!['\x1b', '['] + params + seq![last] + rest;
    assert(seq!['\x1b'] + behind == sequence);
    let middle = screen.render_terminal(before).0;
    lemma_continued(screen, before, sequence);
    lemma_escape_step(middle, behind);
    let at = params.len() + 1;
    assert forall|i: int| 1 <= i < at implies !('@' <= #[trigger] behind[i] && behind[i] <= '~') by {
        assert(behind[i] == params[i - 1]);
    }
    assert(behind[at as int] == last);
    lemma_sequence_final_at(behind, 1, at as int);
    assert(behind.skip(at + 1int) == rest);
}

/// A control sequence that is not completed is taken for one to the end of the text, and
/// changes nothing.
pub proof fn law_open_control_sequence(screen: Screen, before: Seq<char>, params: Seq<char>)
    requires
        !before.contains('\x1b'),
        forall|i: int| 0 <= i < params.len() ==> !('@' <= #[trigger] params[i] && params[i] <= '~'),
    ensures
        screen.render_terminal(before + (seq!['\x1b', '['] + params)) == screen.render_terminal(
            before,
        ),
{
    let behind = seq!['['] + params;
    let sequence = seq!['\x1b', '['] + params;
    assert(seq!['\x1b'] + behind == sequence);
    let middle = screen.render_terminal(before).0;
    lemma_continued(screen, before, sequence);
    lemma_escape_step(middle, behind);
    assert forall|i: int| 1 <= i < behind.len() implies !('@' <= #[trigger] behind[i] && behind[i]
        <= '~') by {
        assert(behind[i] == params[i - 1]);
    }
    lemma_sequence_final_at(behind, 1, behind.len() as int);
    assert(behind.skip(behind.len() as int) == Seq::<char>::empty());
    law_nothing_written(middle);
    law_last_line_is_shown(screen, before);
}

/// True when the text holds no `BEL` and no `ESC \`.
pub open spec fn stays_open(text: Seq<char>) -> bool {
    &&& !text.contains('\x07')
    &&& forall|i: int| 0 <= i < text.len() - 1 ==> !(#[trigger] text[i] == '\x1b' && text[i + 1]
        == '\\')
}

proof fn lemma_system_command_end_at(text: Seq<char>, from: int, at: int)
    requires
        0 <= from <= at <= text.len(),
        forall|i: int| from <= i < at ==> #[trigger] text[i] != '\x07' && !(text[i] == '\x1b' && i
            + 1 < text.len() && text[i + 1] == '\\'),
        at < text.len() ==> text[at] == '\x07' || (text[at] == '\x1b' && at + 1 < text.len()
            && text[at + 1] == '\\'),
    ensures
        terminal::system_command_end(text, from) == (if at >= text.len() {
            text.len() as int
        } else if text[at] == '\x07' {
            at + 1
        } else {
            at + 2
        }),
    decreases at - from,
{
    if from < at {
        assert(text[from] != '\x07');
        lemma_system_command_end_at(text, from + 1, at);
    }
}

/// A system command from `ESC ]` to the first `BEL` or `ESC \` shows nothing and changes
/// nothing.
pub proof fn law_system_command(
    screen: Screen,
    before: Seq<char>,
    command: Seq<char>,
    rest: Seq<char>,
)
    requires
        !before.contains('\x1b'),
        stays_open(command),
    ensures
        ({
            let (after, shown) = screen.render_terminal(before).0.render_terminal(rest);
            let all = (after, completed(screen, before) + shown);
            let start = seq!['\x1b', ']'] + command;
            &&& screen.render_terminal(before + (start + seq!['\x07'] + rest)) == all
            &&& screen.render_terminal(before + (start + seq!['\x1b', '\\'] + rest)) == all
        }),
{
    let middle = screen.render_terminal(before).0;
    let at = command.len() + 1;

    let bell = seq![']'] + command + seq!['\x07'] + rest;
    let with_bell = seq!['\x1b', ']'] + command + seq!['\x07'] + rest;
    assert(seq!['\x1b'] + bell == with_bell);
    lemma_continued(screen, before, with_bell);
    lemma_escape_step(middle, bell);
    assert forall|i: int| 1 <= i < at implies #[trigger] bell[i] != '\x07' && !(bell[i] == '\x1b' && i
        + 1 < bell.len() && bell[i + 1] == '\\') by {
        assert(bell[i] == command[i - 1]);
        assert(command.contains(command[i - 1]));
        if i + 1 < at {
            assert(bell[i + 1] == command[i]);
        }
    }
    assert(bell[at as int] == '\x07');
    lemma_system_command_end_at(bell, 1, at as int);
    assert(bell.skip(at + 1int) == rest);

    let string = seq![']'] + command + seq!['\x1b', '\\'] + rest;
    let with_string = seq!['\x1b', ']'] + command + seq!['\x1b', '\\'] + rest;
    assert(seq!['\x1b'] + string == with_string);
    lemma_continued(screen, before, with_string);
    lemma_escape_step(middle, string);
    assert forall|i: int| 1 <= i < at implies #[trigger] string[i] != '\x07' && !(string[i] == '\x1b'
        && i + 1 < string.len() && string[i + 1] == '\\') by {
        assert(string[i] == command[i - 1]);
        assert(command.contains(command[i - 1]));
        if i + 1 < at {
            assert(string[i + 1] == command[i]);
        }
    }
    assert(string[at as int] == '\x1b');
    assert(string[at + 1int] == '\\');
    lemma_system_command_end_at(string, 1, at as int);
    assert(string.skip(at + 2int) == rest);
}

/// A system command that is not completed is taken for one to the end of the text, and
/// changes nothing.
pub proof fn law_open_system_command(screen: Screen, before: Seq<char>, command: Seq<char>)
    requires
        !before.contains('\x1b'),
        stays_open(command),
    ensures
        screen.render_terminal(before + (seq!['\x1b', ']'] + command)) == screen.render_terminal(
            before,
        ),
{
    let behind = seq![']'] + command;
    let sequence = seq!['\x1b', ']'] + command;
    assert(seq!['\x1b'] + behind == sequence);
    let middle = screen.render_terminal(before).0;
    lemma_continued(screen, before, sequence);
    lemma_escape_step(middle, behind);
    assert forall|i: int| 1 <= i < behind.len() implies #[trigger] behind[i] != '\x07' && !(behind[i]
        == '\x1b' && i + 1 < behind.len() && behind[i + 1] == '\\') by {
        assert(behind[i] == command[i - 1]);
        assert(command.contains(command[i - 1]));
        if i + 1 < behind.len() {
            assert(behind[i + 1] == command[i]);
        }
    }
    lemma_system_command_end_at(behind, 1, behind.len() as int);
    assert(behind.skip(behind.len() as int) == Seq::<char>::empty());
    law_nothing_written(middle);
    law_last_line_is_shown(screen, before);
}

/// An escape that starts no sequence is dropped alone: what follows it is written.
pub proof fn law_lone_escape(screen: Screen, before: Seq<char>, rest: Seq<char>)
    requires
        !before.contains('\x1b'),
        rest.len() > 0 ==> rest[0] != '[' && rest[0] != ']',
    ensures
        ({
            let (after, shown) = screen.render_terminal(before).0.render_terminal(rest);
            screen.render_terminal(before + (seq!['\x1b'] + rest)) == (
                after,
                completed(screen, before) + shown,
            )
        }),
{
    let middle = screen.render_terminal(before).0;
    lemma_continued(screen, before, seq!['\x1b'] + rest);
    lemma_escape_step(middle, rest);
    assert(rest.skip(0) == rest);
}

} // verus!
