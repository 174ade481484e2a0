//! What holds of every text that the terminal renders.
use crate::terminal;
use crate::terminal::Screen;
use vstd::prelude::*;

verus! {

/// Writing two plain texts one after the other is writing both at once.
pub proof fn law_write_plain_append(screen: Screen, first: Seq<char>, second: Seq<char>)
    ensures
        screen.write_plain(first + second) == screen.write_plain(first).write_plain(second),
    decreases second.len(),
{
    if second.len() == 0 {
        assert(first + second == first);
    } else {
        assert((first + second).drop_last() == first + second.drop_last());
        law_write_plain_append(screen, first, second.drop_last());
    }
}

/// Plain output may be cut into chunks anywhere: the chunks are shown as they are,
/// and the screen ends up the same.
pub proof fn law_plain_chunks(screen: Screen, first: Seq<char>, second: Seq<char>)
    requires
        !terminal::rewrites(first),
        !terminal::rewrites(second),
    ensures
        screen.render(first + second) == (
            screen.render(first).0.render(second).0,
            screen.render(first).1 + screen.render(first).0.render(second).1,
        ),
{
    assert forall|i: int| 0 <= i < (first + second).len() implies !terminal::is_rewrite_control(
        #[trigger] (first + second)[i],
    ) by {
        if i < first.len() {
            assert((first + second)[i] == first[i]);
        } else {
            assert((first + second)[i] == second[i - first.len()]);
        }
    }
    law_write_plain_append(screen, first, second);
}

/// Text without a newline that is written at the cursor replaces as many characters
/// as it has, and grows the line where it reaches beyond its end.
pub proof fn law_write_overlays(screen: Screen, text: Seq<char>)
    requires
        screen.wf(),
        !text.contains('\n'),
    ensures
        screen.write_plain(text).column == screen.column + text.len(),
        screen.write_plain(text).line == screen.line.take(screen.column) + text + (if screen.column
            + text.len() < screen.line.len() {
            screen.line.skip(screen.column + text.len())
        } else {
            Seq::empty()
        }),
    decreases text.len(),
{
    if text.len() > 0 {
        assert(text.contains(text.last()));
        assert forall|i: int| 0 <= i < text.drop_last().len() implies text.drop_last()[i]
            != '\n' by {
            assert(text.contains(text[i]));
        }
        law_write_overlays(screen, text.drop_last());
        assert(text == text.drop_last().push(text.last()));
    } else {
        assert(screen.line == screen.line.take(screen.column) + screen.line.skip(screen.column));
    }
}

/// A text that rewrites nothing leaves the screen as plain writing does.
pub proof fn law_interpret_plain(screen: Screen, output: Seq<char>, text: Seq<char>)
    requires
        !terminal::rewrites(text),
    ensures
        screen.interpret(output, text).0 == screen.write_plain(text),
        !text.contains('\n') ==> screen.interpret(output, text).1 == output,
    decreases text.len(),
{
    if text.len() > 0 {
        let rest = text.drop_first();
        assert(!terminal::is_rewrite_control(text[0]));
        assert forall|i: int| 0 <= i < rest.len() implies !terminal::is_rewrite_control(
            #[trigger] rest[i],
        ) by {
            assert(rest[i] == text[i + 1]);
        }
        if !text.contains('\n') {
            assert(text.contains(text[0]));
            assert forall|i: int| 0 <= i < rest.len() implies rest[i] != '\n' by {
                assert(text.contains(text[i + 1]));
            }
        }
        let head = seq![text[0]];
        assert(text == head + rest);
        law_write_plain_append(screen, head, rest);
        assert(head.drop_last() == Seq::<char>::empty());
        assert(screen.write_plain(head.drop_last()) == screen);
        if text[0] == '\n' {
            assert(screen.write_plain(head) == Screen::blank());
            law_interpret_plain(
                Screen::blank(),
                (output + terminal::trim_end_spaces(screen.line)).push('\n'),
                rest,
            );
        } else {
            assert(screen.write_plain(head) == screen.put(text[0]));
            law_interpret_plain(screen.put(text[0]), output, rest);
        }
    }
}

/// Text without an escape may be cut anywhere: what follows is taken up from the
/// screen that it leaves.
pub proof fn law_interpret_append(
    screen: Screen,
    output: Seq<char>,
    first: Seq<char>,
    second: Seq<char>,
)
    requires
        !first.contains('\x1b'),
    ensures
        screen.interpret(output, first + second) == screen.interpret(output, first).0.interpret(
            screen.interpret(output, first).1,
            second,
        ),
    decreases first.len(),
{
    if first.len() == 0 {
        assert(first + second == second);
    } else {
        let ch = first[0];
        let rest = first.drop_first();
        assert((first + second).drop_first() == rest + second);
        assert(first.contains(first[0]));
        assert forall|i: int| 0 <= i < rest.len() implies rest[i] != '\x1b' by {
            assert(first.contains(first[i + 1]));
        }
        let (next, lines) = if ch == '\r' {
            (screen.carriage_return(), output)
        } else if ch == '\n' {
            (Screen::blank(), (output + terminal::trim_end_spaces(screen.line)).push('\n'))
        } else if ch == '\x08' {
            (screen.left(), output)
        } else {
            (screen.put(ch), output)
        };
        law_interpret_append(next, lines, rest, second);
    }
}

/// What a text leaves on the screen does not depend on the lines before it.
pub proof fn law_screen_is_independent_of_lines(
    screen: Screen,
    first: Seq<char>,
    second: Seq<char>,
    text: Seq<char>,
)
    ensures
        screen.interpret(first, text).0 == screen.interpret(second, text).0,
    decreases text.len(),
{
    if text.len() > 0 {
        let ch = text[0];
        let rest = text.drop_first();
        if ch == '\r' {
            law_screen_is_independent_of_lines(screen.carriage_return(), first, second, rest);
        } else if ch == '\n' {
            let line = terminal::trim_end_spaces(screen.line);
            law_screen_is_independent_of_lines(
                Screen::blank(),
                (first + line).push('\n'),
                (second + line).push('\n'),
                rest,
            );
        } else if ch == '\x08' {
            law_screen_is_independent_of_lines(screen.left(), first, second, rest);
        } else if ch == '\x1b' {
            terminal::lemma_escape_length(rest);
            let next = if terminal::escape_erases(rest) {
                screen.erase_to_end()
            } else {
                screen
            };
            law_screen_is_independent_of_lines(
                next,
                first,
                second,
                rest.skip(terminal::escape_length(rest)),
            );
        } else {
            law_screen_is_independent_of_lines(screen.put(ch), first, second, rest);
        }
    }
}

proof fn lemma_rendered_screen(screen: Screen, output: Seq<char>, text: Seq<char>)
    ensures
        screen.render(text).0 == screen.interpret(output, text).0,
{
    if terminal::rewrites(text) {
        law_screen_is_independent_of_lines(screen, Seq::empty(), output, text);
    } else {
        law_interpret_plain(screen, output, text);
    }
}

/// Output may be cut into chunks anywhere outside an escape sequence: the screen ends up
/// as it would without the cut.
pub proof fn law_chunks_leave_the_same_screen(
    screen: Screen,
    first: Seq<char>,
    second: Seq<char>,
)
    requires
        !first.contains('\x1b'),
    ensures
        screen.render(first + second).0 == screen.render(first).0.render(second).0,
{
    let none = Seq::<char>::empty();
    let (middle, lines) = screen.interpret(none, first);
    law_interpret_append(screen, none, first, second);
    lemma_rendered_screen(screen, none, first + second);
    lemma_rendered_screen(screen, none, first);
    lemma_rendered_screen(middle, lines, second);
}

/// After a carriage return the text that follows overwrites the line, and what it
/// does not reach stays.
pub proof fn law_carriage_return_overwrites(screen: Screen, text: Seq<char>)
    requires
        screen.wf(),
        !terminal::rewrites(text),
        !text.contains('\n'),
    ensures
        screen.render_terminal(seq!['\r'] + text).0.line == text + (if text.len()
            < screen.line.len() {
            screen.line.skip(text.len() as int)
        } else {
            Seq::empty()
        }),
        text.len() >= screen.line.len() ==> screen.render_terminal(seq!['\r'] + text).1
            == terminal::trim_end_spaces(text),
{
    let all = seq!['\r'] + text;
    assert(all.drop_first() == text);
    let start = screen.carriage_return();
    law_interpret_plain(start, Seq::empty(), text);
    law_write_overlays(start, text);
    assert(start.line.take(0) + text == text);
    assert(text + Seq::<char>::empty() == text);
    assert(Seq::<char>::empty() + terminal::trim_end_spaces(text) == terminal::trim_end_spaces(text));
}

/// A carriage return, a text and the sequence that erases the rest of the line
/// leave that text alone, whatever the line held.
pub proof fn law_erase_line(screen: Screen, text: Seq<char>)
    requires
        screen.wf(),
        !terminal::rewrites(text),
        !text.contains('\n'),
    ensures
        screen.render_terminal(seq!['\r'] + text + seq!['\x1b', '[', 'K']) == (
            Screen { line: text, column: text.len() as int },
            terminal::trim_end_spaces(text),
        ),
{
    let head = seq!['\r'] + text;
    let erase = seq!['\x1b', '[', 'K'];
    assert forall|i: int| 0 <= i < head.len() implies head[i] != '\x1b' by {
        if i > 0 {
            assert(!terminal::is_rewrite_control(text[i - 1]));
        }
    }
    law_interpret_append(screen, Seq::empty(), head, erase);
    assert(head.drop_first() == text);
    let start = screen.carriage_return();
    law_interpret_plain(start, Seq::empty(), text);
    law_write_overlays(start, text);
    let written = start.write_plain(text);
    let behind = erase.drop_first();
    assert(behind == seq!['[', 'K']);
    assert(terminal::sequence_final(behind, 1) == 1);
    assert(terminal::escape_erases(behind));
    assert(behind.skip(2) == Seq::<char>::empty());
    let erased = written.erase_to_end();
    assert(erased.line == text);
    assert(erased.interpret(Seq::empty(), Seq::empty()) == (erased, Seq::<char>::empty()));
    assert(Seq::<char>::empty() + terminal::trim_end_spaces(text) == terminal::trim_end_spaces(text));
}

/// A backspace takes back one character: the next one is written in its place.
pub proof fn law_backspace_rewrites(screen: Screen, taken_back: char, kept: char)
    requires
        screen.wf(),
        !terminal::is_rewrite_control(taken_back),
        taken_back != '\n',
        !terminal::is_rewrite_control(kept),
        kept != '\n',
    ensures
        screen.render_terminal(seq![taken_back, '\x08', kept]) == screen.render_terminal(
            seq![kept],
        ),
{
    let text = seq![taken_back, '\x08', kept];
    assert(text.drop_first() == seq!['\x08', kept]);
    assert(text.drop_first().drop_first() == seq![kept]);
    let none = Seq::<char>::empty();
    let back = screen.put(taken_back).left();
    assert(back.put(kept) == screen.put(kept));
    assert(seq![kept].drop_first() == none);
    assert(back.interpret(none, seq![kept]) == back.put(kept).interpret(none, none));
    assert(screen.interpret(none, seq![kept]) == screen.put(kept).interpret(none, none));
    assert(screen.put(taken_back).interpret(none, seq!['\x08', kept]) == back.interpret(
        none,
        seq![kept],
    ));
}

/// Every reached screen has its cursor in the line or right behind it.
pub proof fn law_interpret_wf(screen: Screen, output: Seq<char>, text: Seq<char>)
    requires
        screen.wf(),
    ensures
        screen.interpret(output, text).0.wf(),
    decreases text.len(),
{
    if text.len() > 0 {
        let ch = text[0];
        let rest = text.drop_first();
        if ch == '\r' {
            law_interpret_wf(screen.carriage_return(), output, rest);
        } else if ch == '\n' {
            law_interpret_wf(
                Screen::blank(),
                (output + terminal::trim_end_spaces(screen.line)).push('\n'),
                rest,
            );
        } else if ch == '\x08' {
            law_interpret_wf(screen.left(), output, rest);
        } else if ch == '\x1b' {
            terminal::lemma_escape_length(rest);
            let next = if terminal::escape_erases(rest) {
                screen.erase_to_end()
            } else {
                screen
            };
            law_interpret_wf(next, output, rest.skip(terminal::escape_length(rest)));
        } else {
            law_interpret_wf(screen.put(ch), output, rest);
        }
    }
}

proof fn lemma_trim_end_spaces(text: Seq<char>)
    ensures
        terminal::trim_end_spaces(text).is_prefix_of(text),
    decreases text.len(),
{
    if text.len() > 0 && text.last() == ' ' {
        lemma_trim_end_spaces(text.drop_last());
    }
}

proof fn lemma_append_trimmed(output: Seq<char>, line: Seq<char>)
    requires
        !terminal::rewrites(output),
        !terminal::rewrites(line),
    ensures
        !terminal::rewrites(output + terminal::trim_end_spaces(line)),
{
    lemma_trim_end_spaces(line);
    let all = output + terminal::trim_end_spaces(line);
    assert forall|i: int| 0 <= i < all.len() implies !terminal::is_rewrite_control(#[trigger] all[i]) by {
        if i < output.len() {
            assert(all[i] == output[i]);
        } else {
            assert(all[i] == line[i - output.len()]);
        }
    }
}

proof fn lemma_interpret_clean(screen: Screen, output: Seq<char>, text: Seq<char>)
    requires
        screen.wf(),
        screen.clean(),
        !terminal::rewrites(output),
    ensures
        screen.interpret(output, text).0.clean(),
        !terminal::rewrites(screen.interpret(output, text).1),
    decreases text.len(),
{
    if text.len() > 0 {
        let ch = text[0];
        let rest = text.drop_first();
        if ch == '\r' {
            lemma_interpret_clean(screen.carriage_return(), output, rest);
        } else if ch == '\n' {
            let lines = output + terminal::trim_end_spaces(screen.line);
            lemma_append_trimmed(output, screen.line);
            assert forall|i: int| 0 <= i < lines.push('\n').len() implies !terminal::is_rewrite_control(
                #[trigger] lines.push('\n')[i],
            ) by {
                assert(i < lines.len() ==> lines.push('\n')[i] == lines[i]);
            }
            lemma_interpret_clean(Screen::blank(), lines.push('\n'), rest);
        } else if ch == '\x08' {
            lemma_interpret_clean(screen.left(), output, rest);
        } else if ch == '\x1b' {
            terminal::lemma_escape_length(rest);
            let next = if terminal::escape_erases(rest) {
                screen.erase_to_end()
            } else {
                screen
            };
            assert forall|i: int| 0 <= i < next.line.len() implies !terminal::is_rewrite_control(
                #[trigger] next.line[i],
            ) && next.line[i] != '\n' by {
                assert(next.line[i] == screen.line[i]);
                assert(screen.line.contains(screen.line[i]));
            }
            lemma_interpret_clean(next, output, rest.skip(terminal::escape_length(rest)));
        } else {
            lemma_put_clean(screen, ch);
            lemma_interpret_clean(screen.put(ch), output, rest);
        }
    }
}

proof fn lemma_put_clean(screen: Screen, ch: char)
    requires
        screen.wf(),
        screen.clean(),
        !terminal::is_rewrite_control(ch),
        ch != '\n',
    ensures
        screen.put(ch).wf(),
        screen.put(ch).clean(),
{
    let next = screen.put(ch);
    assert forall|i: int| 0 <= i < next.line.len() implies !terminal::is_rewrite_control(
        #[trigger] next.line[i],
    ) && next.line[i] != '\n' by {
        if next.line[i] != ch {
            assert(next.line[i] == screen.line[i]);
            assert(screen.line.contains(screen.line[i]));
        }
    }
}

proof fn lemma_write_plain_clean(screen: Screen, text: Seq<char>)
    requires
        screen.wf(),
        screen.clean(),
        !terminal::rewrites(text),
    ensures
        screen.write_plain(text).wf(),
        screen.write_plain(text).clean(),
    decreases text.len(),
{
    if text.len() > 0 {
        assert(!terminal::is_rewrite_control(text[text.len() - 1]));
        if text.last() != '\n' {
            assert forall|i: int| 0 <= i < text.drop_last().len() implies !terminal::is_rewrite_control(
                #[trigger] text.drop_last()[i],
            ) by {
                assert(text.drop_last()[i] == text[i]);
            }
            lemma_write_plain_clean(screen, text.drop_last());
            lemma_put_clean(screen.write_plain(text.drop_last()), text.last());
        }
    }
}

/// What is shown never holds a character that moves the cursor or starts a control
/// sequence, and the line never comes to hold one.
pub proof fn law_shown_text_is_clean(screen: Screen, text: Seq<char>)
    requires
        screen.wf(),
        screen.clean(),
    ensures
        !terminal::rewrites(screen.render(text).1),
        screen.render(text).0.wf(),
        screen.render(text).0.clean(),
{
    if terminal::rewrites(text) {
        law_interpret_wf(screen, Seq::empty(), text);
        lemma_interpret_clean(screen, Seq::empty(), text);
        let (next, lines) = screen.interpret(Seq::empty(), text);
        lemma_append_trimmed(lines, next.line);
    } else {
        lemma_write_plain_clean(screen, text);
    }
}

} // verus!
