//! A one-line terminal: renders output that rewrites its current line.
use crate::text::chars_of;
use vstd::prelude::*;
use vstd::string::*;

verus! {

/// True for the characters that move the cursor or start a control sequence.
pub open spec fn is_rewrite_control(ch: char) -> bool {
    ch == '\r' || ch == '\x08' || ch == '\x1b'
}

/// True when `text` holds a character that moves the cursor or starts a control
/// sequence.
pub open spec fn rewrites(text: Seq<char>) -> bool {
    exists|i: int| 0 <= i < text.len() && is_rewrite_control(#[trigger] text[i])
}

/// `text` without the spaces at its end.
pub open spec fn trim_end_spaces(text: Seq<char>) -> Seq<char>
    decreases text.len(),
{
    if text.len() > 0 && text.last() == ' ' {
        trim_end_spaces(text.drop_last())
    } else {
        text
    }
}

/// True for the characters that end a control sequence opened by `ESC [`.
pub open spec fn is_sequence_final(ch: char) -> bool {
    '@' <= ch && ch <= '~'
}

/// The first position from `from` on that ends a control sequence, or the length
/// of `text` where none does.
pub open spec fn sequence_final(text: Seq<char>, from: int) -> int
    decreases text.len() - from,
{
    if from >= text.len() {
        text.len() as int
    } else if is_sequence_final(text[from]) {
        from
    } else {
        sequence_final(text, from + 1)
    }
}

/// The position behind the first `BEL` or `ESC \` from `from` on, or the length of
/// `text` where there is none.
pub open spec fn system_command_end(text: Seq<char>, from: int) -> int
    decreases text.len() - from,
{
    if from >= text.len() {
        text.len() as int
    } else if text[from] == '\x07' {
        from + 1
    } else if text[from] == '\x1b' && from + 1 < text.len() && text[from + 1] == '\\' {
        from + 2
    } else {
        system_command_end(text, from + 1)
    }
}

/// How many characters of `text`, which stands behind an `ESC`, belong to the
/// escape sequence.
pub open spec fn escape_length(text: Seq<char>) -> int {
    if text.len() == 0 {
        0
    } else if text[0] == '[' {
        let end = sequence_final(text, 1);
        if end < text.len() {
            end + 1
        } else {
            end
        }
    } else if text[0] == ']' {
        system_command_end(text, 1)
    } else {
        0
    }
}

/// True when `text`, which stands behind an `ESC`, starts with the sequence that
/// erases the rest of the line.
pub open spec fn escape_erases(text: Seq<char>) -> bool {
    &&& text.len() > 0
    &&& text[0] == '['
    &&& sequence_final(text, 1) < text.len()
    &&& text[sequence_final(text, 1)] == 'K'
}

/// The current line of a terminal and the column of its cursor.
#[verifier::ext_equal]
pub struct Screen {
    pub line: Seq<char>,
    pub column: int,
}

impl Screen {
    /// The empty line.
    pub open spec fn blank() -> Screen {
        Screen { line: Seq::empty(), column: 0 }
    }

    /// The cursor stands in the line or right behind it.
    pub open spec fn wf(self) -> bool {
        0 <= self.column <= self.line.len()
    }

    /// The line holds only characters that are shown in a line.
    pub open spec fn clean(self) -> bool {
        !rewrites(self.line) && !self.line.contains('\n')
    }

    /// `ch` written at the cursor, over the character there.
    pub open spec fn put(self, ch: char) -> Screen {
        Screen {
            line: if self.column >= self.line.len() {
                self.line.push(ch)
            } else {
                self.line.update(self.column, ch)
            },
            column: self.column + 1,
        }
    }

    /// The cursor one column to the left, where there is one.
    pub open spec fn left(self) -> Screen {
        Screen { line: self.line, column: if self.column > 0 { self.column - 1 } else { 0 } }
    }

    /// The cursor at the start of the line.
    pub open spec fn carriage_return(self) -> Screen {
        Screen { line: self.line, column: 0 }
    }

    /// The line cut off at the cursor.
    pub open spec fn erase_to_end(self) -> Screen {
        Screen { line: self.line.take(self.column), column: self.column }
    }

    /// The screen after `text`, in which a newline starts a blank line and every
    /// other character is written.
    pub open spec fn write_plain(self, text: Seq<char>) -> Screen
        decreases text.len(),
    {
        if text.len() == 0 {
            self
        } else if text.last() == '\n' {
            Screen::blank()
        } else {
            self.write_plain(text.drop_last()).put(text.last())
        }
    }

    /// The screen after `text`, and `output` followed by the lines that `text`
    /// completes.
    pub open spec fn interpret(self, output: Seq<char>, text: Seq<char>) -> (Screen, Seq<char>)
        decreases text.len(),
    {
        if text.len() == 0 {
            (self, output)
        } else {
            let ch = text[0];
            let rest = text.drop_first();
            if ch == '\r' {
                self.carriage_return().interpret(output, rest)
            } else if ch == '\n' {
                Screen::blank().interpret((output + trim_end_spaces(self.line)).push('\n'), rest)
            } else if ch == '\x08' {
                self.left().interpret(output, rest)
            } else if ch == '\x1b' {
                proof {
                    lemma_escape_length(rest);
                }
                let next = if escape_erases(rest) {
                    self.erase_to_end()
                } else {
                    self
                };
                next.interpret(output, rest.skip(escape_length(rest)))
            } else {
                self.put(ch).interpret(output, rest)
            }
        }
    }

    /// The screen after `text`, and the lines that `text` completes followed by the
    /// line at the end, each without the spaces at its end.
    pub open spec fn render_terminal(self, text: Seq<char>) -> (Screen, Seq<char>) {
        let (screen, output) = self.interpret(Seq::empty(), text);
        (screen, output + trim_end_spaces(screen.line))
    }

    /// The screen after `text`, and what is shown of `text`: `text` itself where it
    /// rewrites nothing, and the rendered lines where it does.
    pub open spec fn render(self, text: Seq<char>) -> (Screen, Seq<char>) {
        if rewrites(text) {
            self.render_terminal(text)
        } else {
            (self.write_plain(text), text)
        }
    }
}

proof fn lemma_sequence_final(text: Seq<char>, from: int)
    requires
        0 <= from <= text.len(),
    ensures
        from <= sequence_final(text, from) <= text.len(),
    decreases text.len() - from,
{
    if from < text.len() && !is_sequence_final(text[from]) {
        lemma_sequence_final(text, from + 1);
    }
}

proof fn lemma_system_command_end(text: Seq<char>, from: int)
    requires
        0 <= from <= text.len(),
    ensures
        from <= system_command_end(text, from) <= text.len(),
    decreases text.len() - from,
{
    if from < text.len() && text[from] != '\x07' && !(text[from] == '\x1b' && from + 1 < text.len()
        && text[from + 1] == '\\') {
        lemma_system_command_end(text, from + 1);
    }
}

/// An escape sequence lies within the text.
pub proof fn lemma_escape_length(text: Seq<char>)
    ensures
        0 <= escape_length(text) <= text.len(),
{
    if text.len() > 0 {
        lemma_sequence_final(text, 1);
        lemma_system_command_end(text, 1);
    }
}

/// True when `text` holds a character that moves the cursor or starts a control
/// sequence.
pub fn has_rewrite_control(text: &str) -> (found: bool)
    ensures
        found == rewrites(text@),
{
    let chars = chars_of(text);
    let mut i: usize = 0;
    while i < chars.len()
        invariant
            i <= chars.len(),
            chars@ == text@,
            forall|j: int| 0 <= j < i ==> !is_rewrite_control(#[trigger] text@[j]),
        decreases chars.len() - i,
    {
        let ch = chars[i];
        if ch == '\r' || ch == '\x08' || ch == '\x1b' {
            assert(is_rewrite_control(text@[i as int]));
            return true;
        }
        i += 1;
    }
    false
}

/// Appends the characters of `line` without the spaces at its end.
fn push_trimmed(output: &mut String, line: &Vec<char>)
    ensures
        final(output)@ == old(output)@ + trim_end_spaces(line@),
{
    let mut end: usize = line.len();
    assert(line@.take(end as int) == line@);
    while end > 0 && line[end - 1] == ' '
        invariant
            end <= line.len(),
            trim_end_spaces(line@.take(end as int)) == trim_end_spaces(line@),
        decreases end,
    {
        assert(line@.take(end as int).drop_last() == line@.take(end - 1));
        end -= 1;
    }
    assert(trim_end_spaces(line@.take(end as int)) == line@.take(end as int));
    let mut i: usize = 0;
    while i < end
        invariant
            i <= end <= line.len(),
            output@ == old(output)@ + line@.take(i as int),
        decreases end - i,
    {
        output.push(line[i]);
        i += 1;
    }
}

/// The current line of a terminal, as far as progress output has written it.
pub struct TerminalProgressState {
    line: Vec<char>,
    cursor: usize,
}

impl View for TerminalProgressState {
    type V = Screen;

    closed spec fn view(&self) -> Screen {
        Screen { line: self.line@, column: self.cursor as int }
    }
}

impl Default for TerminalProgressState {
    /// The blank line.
    fn default() -> (state: Self)
        ensures
            state@ == Screen::blank(),
    {
        TerminalProgressState { line: Vec::new(), cursor: 0 }
    }
}

impl TerminalProgressState {
    /// Takes up `text` and returns what is shown of it.
    pub fn render(&mut self, text: &str) -> (output: String)
        requires
            old(self)@.wf(),
        ensures
            (final(self)@, output@) == old(self)@.render(text@),
            final(self)@.wf(),
    {
        if has_rewrite_control(text) {
            self.render_terminal_text(text)
        } else {
            self.update_plain_text(text);
            text.to_string()
        }
    }

    /// Writes `text`, in which a newline starts a blank line.
    pub fn update_plain_text(&mut self, text: &str)
        requires
            old(self)@.wf(),
        ensures
            final(self)@ == old(self)@.write_plain(text@),
            final(self)@.wf(),
    {
        let chars = chars_of(text);
        let mut i: usize = 0;
        while i < chars.len()
            invariant
                i <= chars.len(),
                chars@ == text@,
                self@.wf(),
                self@ == old(self)@.write_plain(text@.take(i as int)),
            decreases chars.len() - i,
        {
            let ch = chars[i];
            assert(text@.take(i + 1).drop_last() == text@.take(i as int));
            if ch == '\n' {
                self.line.clear();
                self.cursor = 0;
            } else {
                self.write_char(ch);
            }
            i += 1;
        }
        assert(text@.take(i as int) == text@);
    }

    /// Takes up `text`, control characters and escape sequences included, and
    /// returns the lines that result.
    pub fn render_terminal_text(&mut self, text: &str) -> (output: String)
        requires
            old(self)@.wf(),
        ensures
            (final(self)@, output@) == old(self)@.render_terminal(text@),
            final(self)@.wf(),
    {
        let mut output = String::new();
        let chars = chars_of(text);
        let mut next: usize = 0;
        assert(text@.skip(0) == text@);
        while next < chars.len()
            invariant
                next <= chars.len(),
                chars@ == text@,
                self@.wf(),
                old(self)@.interpret(Seq::empty(), text@) == self@.interpret(
                    output@,
                    text@.skip(next as int),
                ),
            decreases chars.len() - next,
        {
            let ch = chars[next];
            let ghost rest = text@.skip(next as int).drop_first();
            assert(rest == text@.skip(next + 1));
            next += 1;
            match ch {
                '\r' => {
                    self.cursor = 0;
                },
                '\n' => {
                    push_trimmed(&mut output, &self.line);
                    output.push('\n');
                    self.line.clear();
                    self.cursor = 0;
                    assert(self@ == Screen::blank());
                },
                '\x08' => self.move_cursor_left(),
                '\x1b' => {
                    proof {
                        lemma_escape_length(rest);
                    }
                    next = self.apply_escape_sequence(chars.as_slice(), next);
                    assert(rest.skip(escape_length(rest)) == text@.skip(next as int));
                },
                _ => self.write_char(ch),
            }
        }
        assert(text@.skip(next as int).len() == 0);
        push_trimmed(&mut output, &self.line);
        output
    }

    /// Writes `ch` at the cursor, over the character there.
    pub fn write_char(&mut self, ch: char)
        requires
            old(self)@.wf(),
        ensures
            final(self)@ == old(self)@.put(ch),
            final(self)@.wf(),
    {
        if self.cursor >= self.line.len() {
            self.line.push(ch);
            self.cursor = self.line.len();
        } else {
            self.line.set(self.cursor, ch);
            self.cursor += 1;
        }
    }

    /// Moves the cursor one column to the left, where there is one.
    pub fn move_cursor_left(&mut self)
        requires
            old(self)@.wf(),
        ensures
            final(self)@ == old(self)@.left(),
            final(self)@.wf(),
    {
        if self.cursor == 0 {
            return;
        }
        self.cursor -= 1;
    }

    /// Applies the escape sequence whose characters behind the `ESC` start at
    /// `position`, and returns the position behind it.
    pub fn apply_escape_sequence(&mut self, chars: &[char], position: usize) -> (next: usize)
        requires
            old(self)@.wf(),
            position <= chars@.len(),
        ensures
            next == position + escape_length(chars@.skip(position as int)),
            position <= next <= chars@.len(),
            final(self)@ == (if escape_erases(chars@.skip(position as int)) {
                old(self)@.erase_to_end()
            } else {
                old(self)@
            }),
            final(self)@.wf(),
    {
        let ghost text = chars@.skip(position as int);
        proof {
            lemma_escape_length(text);
        }
        if position >= chars.len() {
            return position;
        }
        let first = chars[position];
        let mut next: usize = position + 1;
        if first == '[' {
            while next < chars.len() && !('@' <= chars[next] && chars[next] <= '~')
                invariant
                    position + 1 <= next <= chars@.len(),
                    text == chars@.skip(position as int),
                    sequence_final(text, 1) == sequence_final(text, next - position),
                decreases chars.len() - next,
            {
                next += 1;
            }
            if next < chars.len() {
                let command = chars[next];
                next += 1;
                if command == 'K' {
                    self.line.truncate(self.cursor);
                }
            }
        } else if first == ']' {
            while next < chars.len()
                invariant
                    position + 1 <= next <= chars@.len(),
                    text == chars@.skip(position as int),
                    text.len() > 0 && text[0] == ']',
                    self@ == old(self)@,
                    self@.wf(),
                    escape_length(text) == system_command_end(text, next - position),
                decreases chars.len() - next,
            {
                let ch = chars[next];
                next += 1;
                if ch == '\x07' {
                    return next;
                }
                if ch == '\x1b' && next < chars.len() && chars[next] == '\\' {
                    return next + 1;
                }
            }
        } else {
            next = position;
        }
        next
    }
}

} // verus!
