//! Progress of a growing output: which bytes are read next, and what is shown.
use crate::terminal::{Screen, TerminalProgressState};
use crate::text;
use crate::text::text_of;
use vstd::prelude::*;
use vstd::slice::slice_subrange;
use vstd::string::*;
use vstd::utf8::*;

verus! {

/// How many bytes the UTF-8 sequence has that `byte` leads; 1 where it leads none.
pub open spec fn sequence_length(byte: u8) -> int {
    if is_leading_byte_width_2(byte) {
        2
    } else if is_leading_byte_width_3(byte) {
        3
    } else if is_leading_byte_width_4(byte) {
        4
    } else {
        1
    }
}

/// Where the continuation bytes at the end of `bytes` start.
pub open spec fn continuation_start(bytes: Seq<u8>) -> int
    decreases bytes.len(),
{
    if bytes.len() > 0 && is_continuation_byte(bytes.last()) {
        continuation_start(bytes.drop_last())
    } else {
        bytes.len() as int
    }
}

/// How many of `bytes` can be read now: all of them, or those before a UTF-8
/// sequence at the end that lacks continuation bytes.
pub open spec fn complete_prefix(bytes: Seq<u8>) -> int {
    let lead = continuation_start(bytes) - 1;
    if lead >= 0 && bytes.len() - lead < sequence_length(bytes[lead]) {
        lead
    } else {
        bytes.len() as int
    }
}

/// True for a byte of the form `10xxxxxx`.
pub fn is_utf8_continuation_byte(byte: u8) -> (found: bool)
    ensures
        found == is_continuation_byte(byte),
{
    assert(0x80 <= byte <= 0xbf <==> byte & 0b1100_0000 == 0b1000_0000) by (bit_vector);
    byte & 0b1100_0000 == 0b1000_0000
}

/// How many bytes the UTF-8 sequence has that `byte` leads; 1 where it leads none.
pub fn utf8_sequence_len(byte: u8) -> (length: usize)
    ensures
        length == sequence_length(byte),
{
    assert(byte & 0b1000_0000 == 0 <==> byte <= 0x7f) by (bit_vector);
    assert(byte & 0b1110_0000 == 0b1100_0000 <==> 0xc0 <= byte <= 0xdf) by (bit_vector);
    assert(byte & 0b1111_0000 == 0b1110_0000 <==> 0xe0 <= byte <= 0xef) by (bit_vector);
    assert(byte & 0b1111_1000 == 0b1111_0000 <==> 0xf0 <= byte <= 0xf7) by (bit_vector);
    if byte & 0b1000_0000 == 0 {
        1
    } else if byte & 0b1110_0000 == 0b1100_0000 {
        2
    } else if byte & 0b1111_0000 == 0b1110_0000 {
        3
    } else if byte & 0b1111_1000 == 0b1111_0000 {
        4
    } else {
        1
    }
}

/// How many of `bytes` can be read now without cutting a UTF-8 sequence that may
/// still be completed.
pub fn complete_utf8_prefix_len(bytes: &[u8]) -> (length: usize)
    ensures
        length == complete_prefix(bytes@),
        length <= bytes@.len(),
{
    if bytes.len() == 0 {
        return 0;
    }
    let mut start: usize = bytes.len();
    assert(bytes@.take(start as int) == bytes@);
    while start > 0 && is_utf8_continuation_byte(bytes[start - 1])
        invariant
            start <= bytes@.len(),
            continuation_start(bytes@.take(start as int)) == continuation_start(bytes@),
        decreases start,
    {
        assert(bytes@.take(start as int).drop_last() == bytes@.take(start - 1));
        start -= 1;
    }
    assert(continuation_start(bytes@.take(start as int)) == start);
    if start == 0 {
        return bytes.len();
    }
    let lead_index: usize = start - 1;
    let required_len: usize = utf8_sequence_len(bytes[lead_index]);
    if required_len > 1 && bytes.len() - lead_index < required_len {
        lead_index
    } else {
        bytes.len()
    }
}

/// Continuation bytes start behind the last byte that is none.
pub proof fn lemma_continuation_start(bytes: Seq<u8>)
    ensures
        0 <= continuation_start(bytes) <= bytes.len(),
        forall|i: int|
            continuation_start(bytes) <= i < bytes.len() ==> is_continuation_byte(
                #[trigger] bytes[i],
            ),
        continuation_start(bytes) > 0 ==> !is_continuation_byte(
            bytes[continuation_start(bytes) - 1],
        ),
    decreases bytes.len(),
{
    if bytes.len() > 0 && is_continuation_byte(bytes.last()) {
        lemma_continuation_start(bytes.drop_last());
        assert forall|i: int|
            continuation_start(bytes) <= i < bytes.len() implies is_continuation_byte(
            #[trigger] bytes[i],
        ) by {
            if i < bytes.len() - 1 {
                assert(bytes[i] == bytes.drop_last()[i]);
            }
        }
    }
}

/// The readable prefix lies within the bytes, and leaves at most three of them.
pub proof fn law_at_most_three_bytes_wait(bytes: Seq<u8>)
    ensures
        0 <= complete_prefix(bytes) <= bytes.len(),
        bytes.len() - complete_prefix(bytes) <= 3,
{
    lemma_continuation_start(bytes);
}

proof fn lemma_continuation_start_unique(bytes: Seq<u8>, start: int)
    requires
        0 < start <= bytes.len(),
        !is_continuation_byte(bytes[start - 1]),
        forall|i: int| start <= i < bytes.len() ==> is_continuation_byte(#[trigger] bytes[i]),
    ensures
        continuation_start(bytes) == start,
{
    lemma_continuation_start(bytes);
    let found = continuation_start(bytes);
    if found < start {
        assert(is_continuation_byte(bytes[start - 1]));
    } else if found > start {
        assert(is_continuation_byte(bytes[found - 1]));
    }
}

/// Of bytes that begin a valid UTF-8 text, the readable prefix is valid UTF-8 too,
/// and no longer prefix is: a sequence is never cut, and none that is complete
/// waits.
pub proof fn law_readable_prefix_is_longest_valid(bytes: Seq<u8>, rest: Seq<u8>)
    requires
        valid_utf8(bytes + rest),
    ensures
        valid_utf8(bytes.take(complete_prefix(bytes))),
        forall|longer: int|
            complete_prefix(bytes) < longer <= bytes.len() ==> !valid_utf8(
                #[trigger] bytes.take(longer),
            ),
    decreases bytes.len(),
{
    let all = bytes + rest;
    if bytes.len() > 0 {
        let width = length_of_first_scalar(all);
        assert(all[0] == bytes[0]);
        assert(valid_first_scalar(all));
        if bytes.len() < width {
            assert forall|i: int| 1 <= i < bytes.len() implies is_continuation_byte(
                #[trigger] bytes[i],
            ) by {
                assert(bytes[i] == all[i]);
            }
            lemma_continuation_start_unique(bytes, 1);
            assert(complete_prefix(bytes) == 0);
            assert forall|longer: int| 0 < longer <= bytes.len() implies !valid_utf8(
                #[trigger] bytes.take(longer),
            ) by {
                assert(bytes.take(longer)[0] == bytes[0]);
            }
        } else {
            let tail = bytes.skip(width);
            assert(pop_first_scalar(all) == tail + rest);
            law_readable_prefix_is_longest_valid(tail, rest);
            lemma_continuation_start(tail);
            if tail.len() == 0 {
                assert forall|i: int| 1 <= i < bytes.len() implies is_continuation_byte(
                    #[trigger] bytes[i],
                ) by {
                    assert(bytes[i] == all[i]);
                }
                lemma_continuation_start_unique(bytes, 1);
            } else {
                assert(tail[0] == (tail + rest)[0]);
                assert(!is_continuation_byte(tail[0]));
                let start = continuation_start(tail);
                assert(start > 0);
                assert forall|i: int|
                    width + start <= i < bytes.len() implies is_continuation_byte(
                    #[trigger] bytes[i],
                ) by {
                    assert(bytes[i] == tail[i - width]);
                }
                assert(bytes[width + start - 1] == tail[start - 1]);
                lemma_continuation_start_unique(bytes, width + start);
            }
            let length = complete_prefix(tail);
            assert(complete_prefix(bytes) == width + length);
            assert forall|k: int| 0 <= k <= tail.len() implies valid_utf8(
                #[trigger] bytes.take(width + k),
            ) == valid_utf8(tail.take(k)) by {
                let prefix = bytes.take(width + k);
                assert(prefix[0] == all[0]);
                assert(width > 1 ==> prefix[1] == all[1]);
                assert(width > 2 ==> prefix[2] == all[2]);
                assert(width > 3 ==> prefix[3] == all[3]);
                assert(valid_first_scalar(prefix));
                assert(pop_first_scalar(prefix) == tail.take(k));
            }
            assert(valid_utf8(bytes.take(width + length)));
            assert forall|longer: int|
                complete_prefix(bytes) < longer <= bytes.len() implies !valid_utf8(
                #[trigger] bytes.take(longer),
            ) by {
                assert(bytes.take(longer) == bytes.take(width + (longer - width)));
                assert(!valid_utf8(tail.take(longer - width)));
            }
        }
    } else {
        assert(bytes.take(0) == Seq::<u8>::empty());
    }
}

/// How far an output has been taken up, and the screen that it left.
#[verifier::ext_equal]
pub struct Progress {
    pub sent: int,
    pub screen: Screen,
}

impl Progress {
    /// Nothing taken up.
    pub open spec fn start() -> Progress {
        Progress { sent: 0, screen: Screen::blank() }
    }

    /// The cursor stands in the line or right behind it.
    pub open spec fn wf(self) -> bool {
        0 <= self.sent && self.screen.wf()
    }

    /// The bytes of `output` that are read next: none where nothing new can be read.
    pub open spec fn chunk(self, output: Seq<u8>) -> Seq<u8> {
        if output.len() <= self.sent {
            Seq::empty()
        } else {
            output.skip(self.sent).take(complete_prefix(output.skip(self.sent)))
        }
    }

    /// The progress after `length` more bytes that read as `text`, and what is shown
    /// of them: nothing rather than an empty text.
    pub open spec fn take_up(self, length: nat, text: Seq<char>) -> (Progress, Option<Seq<char>>) {
        let (screen, shown) = self.screen.render(text);
        (
            Progress { sent: self.sent + length, screen },
            if shown.len() == 0 {
                None
            } else {
                Some(shown)
            },
        )
    }

    /// The progress after a look at `output`, and what is shown.
    pub open spec fn next(self, output: Seq<u8>) -> (Progress, Option<Seq<char>>) {
        let chunk = self.chunk(output);
        if chunk.len() == 0 {
            (self, None)
        } else {
            self.take_up(chunk.len(), text::as_text(chunk))
        }
    }
}

/// The text that the string holds, where there is one.
pub open spec fn shown_text(shown: Option<String>) -> Option<Seq<char>> {
    match shown {
        Some(shown) => Some(shown@),
        None => None,
    }
}

/// Follows one output stream of a running process.
pub struct ProgressStreamState {
    sent_len: usize,
    terminal: TerminalProgressState,
}

impl View for ProgressStreamState {
    type V = Progress;

    closed spec fn view(&self) -> Progress {
        Progress { sent: self.sent_len as int, screen: self.terminal@ }
    }
}

impl Default for ProgressStreamState {
    /// Nothing taken up.
    fn default() -> (state: Self)
        ensures
            state@ == Progress::start(),
    {
        ProgressStreamState { sent_len: 0, terminal: TerminalProgressState::default() }
    }
}

impl ProgressStreamState {
    /// Takes up the part of `output` that is new and can be read, and returns what is
    /// shown of it.
    pub fn next_output(&mut self, output: &[u8]) -> (shown: Option<String>)
        requires
            old(self)@.wf(),
        ensures
            (final(self)@, shown_text(shown)) == old(self)@.next(output@),
            final(self)@.wf(),
    {
        if output.len() <= self.sent_len {
            return None;
        }
        let unread = slice_subrange(output, self.sent_len, output.len());
        let readable_len: usize = complete_utf8_prefix_len(unread);
        let ghost chunk = self@.chunk(output@);
        assert(unread@ == output@.skip(self.sent_len as int));
        assert(chunk == unread@.take(readable_len as int));
        if readable_len == 0 {
            return None;
        }
        let readable = slice_subrange(unread, 0, readable_len);
        assert(readable@ == chunk);
        self.sent_len += readable_len;
        let text = text_of(readable);
        let progress = self.terminal.render(text.as_str());
        if progress.as_str().is_empty() {
            None
        } else {
            Some(progress)
        }
    }
}

/// Looks at both outputs of a process and returns what is shown of them, where
/// anything is.
pub fn collect_progress_output(
    stdout: &[u8],
    stderr: &[u8],
    stdout_progress: &mut ProgressStreamState,
    stderr_progress: &mut ProgressStreamState,
) -> (chunks: Option<(String, String)>)
    requires
        old(stdout_progress)@.wf(),
        old(stderr_progress)@.wf(),
    ensures
        final(stdout_progress)@ == old(stdout_progress)@.next(stdout@).0,
        final(stderr_progress)@ == old(stderr_progress)@.next(stderr@).0,
        final(stdout_progress)@.wf(),
        final(stderr_progress)@.wf(),
        chunks is None <==> old(stdout_progress)@.next(stdout@).1 is None && old(
            stderr_progress,
        )@.next(stderr@).1 is None,
        chunks matches Some((out, err)) ==> {
            &&& out@ == text_or_empty(old(stdout_progress)@.next(stdout@).1)
            &&& err@ == text_or_empty(old(stderr_progress)@.next(stderr@).1)
        },
{
    let stdout_chunk = string_or_empty(stdout_progress.next_output(stdout));
    let stderr_chunk = string_or_empty(stderr_progress.next_output(stderr));
    if stdout_chunk.as_str().is_empty() && stderr_chunk.as_str().is_empty() {
        None
    } else {
        Some((stdout_chunk, stderr_chunk))
    }
}

/// The text, or the empty one where there is none.
pub open spec fn text_or_empty(shown: Option<Seq<char>>) -> Seq<char> {
    match shown {
        Some(shown) => shown,
        None => Seq::empty(),
    }
}

fn string_or_empty(shown: Option<String>) -> (result: String)
    ensures
        result@ == text_or_empty(shown_text(shown)),
{
    match shown {
        Some(shown) => shown,
        None => String::new(),
    }
}

/// While a process writes valid UTF-8, every chunk that is read is valid UTF-8, and
/// what has been read always ends at a character.
pub proof fn law_chunks_end_at_characters(progress: Progress, output: Seq<u8>, rest: Seq<u8>)
    requires
        0 <= progress.sent <= output.len(),
        valid_utf8(output.take(progress.sent)),
        valid_utf8(output + rest),
    ensures
        valid_utf8(progress.chunk(output)),
        progress.next(output).0.sent == progress.sent + progress.chunk(output).len(),
        progress.next(output).0.sent <= output.len(),
        progress.chunk(output) == output.subrange(progress.sent, progress.next(output).0.sent),
        valid_utf8(output.take(progress.next(output).0.sent)),
        decode_utf8(output.take(progress.next(output).0.sent)) == decode_utf8(
            output.take(progress.sent),
        ) + decode_utf8(progress.chunk(output)),
{
    let all = output + rest;
    let head = output.take(progress.sent);
    let unread = output.skip(progress.sent);
    assert(all.subrange(0, progress.sent) == head);
    assert(all.subrange(progress.sent, all.len() as int) == unread + rest);
    if !valid_utf8(unread + rest) {
        partial_valid_partial_invalid_utf8(all, progress.sent);
    }
    law_readable_prefix_is_longest_valid(unread, rest);
    law_at_most_three_bytes_wait(unread);
    let chunk = progress.chunk(output);
    if output.len() <= progress.sent {
        assert(chunk == Seq::<u8>::empty());
    }
    let sent = progress.sent + chunk.len();
    assert(output.subrange(progress.sent, sent) == chunk);
    assert(output.take(sent) == head + chunk);
    valid_utf8_concat(head, chunk);
    text::lemma_boundary(head, chunk);
    let both = head + chunk;
    decode_utf8_split(both, head.len() as int);
    assert(both.subrange(0, head.len() as int) == head);
    assert(both.subrange(head.len() as int, both.len() as int) == chunk);
}

/// After a look at an output, a look at it or at a part of it from its start on shows
/// nothing and changes nothing: nothing is shown twice.
pub proof fn law_second_look_shows_nothing(progress: Progress, output: Seq<u8>, length: int)
    requires
        0 <= progress.sent,
        0 <= length <= output.len(),
    ensures
        ({
            let after = progress.next(output).0;
            after.next(output.take(length)) == (after, None::<Seq<char>>)
        }),
{
    let after = progress.next(output).0;
    let part = output.take(length);
    if length > after.sent {
        let unread = output.skip(progress.sent);
        let lead = complete_prefix(unread);
        law_at_most_three_bytes_wait(unread);
        lemma_continuation_start(unread);
        assert(progress.chunk(output).len() == lead);
        assert(after.sent == progress.sent + lead);
        let waiting = part.skip(after.sent);
        assert forall|i: int| 0 <= i < waiting.len() implies #[trigger] waiting[i] == unread[lead
            + i] by {}
        assert(continuation_start(waiting) == 1) by {
            lemma_continuation_start(waiting);
            if continuation_start(waiting) == 0 {
                assert(is_continuation_byte(waiting[0]));
            } else if continuation_start(waiting) > 1 {
                let at = continuation_start(waiting) - 1;
                assert(!is_continuation_byte(waiting[at]));
                assert(waiting[at] == unread[lead + at]);
            }
        }
        assert(complete_prefix(waiting) == 0);
        assert(after.chunk(part).len() == 0);
    }
}

/// Once an output is complete and valid UTF-8, one look at it takes up all of it.
pub proof fn law_complete_output_is_taken_up(progress: Progress, output: Seq<u8>)
    requires
        0 <= progress.sent <= output.len(),
        valid_utf8(output.take(progress.sent)),
        valid_utf8(output),
    ensures
        progress.next(output).0.sent == output.len(),
{
    let rest = Seq::<u8>::empty();
    assert(output + rest == output);
    law_chunks_end_at_characters(progress, output, rest);
    let unread = output.skip(progress.sent);
    let head = output.take(progress.sent);
    assert(output.subrange(0, progress.sent) == head);
    assert(output.subrange(progress.sent, output.len() as int) == unread);
    if !valid_utf8(unread) {
        partial_valid_partial_invalid_utf8(output, progress.sent);
    }
    assert(unread + rest == unread);
    law_readable_prefix_is_longest_valid(unread, rest);
    law_at_most_three_bytes_wait(unread);
    assert(unread.take(unread.len() as int) == unread);
    if complete_prefix(unread) < unread.len() {
        assert(!valid_utf8(unread.take(unread.len() as int)));
    }
}

/// Output that rewrites nothing is shown as it is, however it is cut into chunks:
/// none of it is lost and none is shown twice.
pub proof fn law_plain_output_is_shown_once(
    progress: Progress,
    first_length: nat,
    first: Seq<char>,
    second_length: nat,
    second: Seq<char>,
)
    requires
        !crate::terminal::rewrites(first),
        !crate::terminal::rewrites(second),
    ensures
        ({
            let (middle, first_shown) = progress.take_up(first_length, first);
            let (end, second_shown) = middle.take_up(second_length, second);
            let (at_once, shown) = progress.take_up(first_length + second_length, first + second);
            &&& end == at_once
            &&& text_or_empty(first_shown) + text_or_empty(second_shown) == text_or_empty(shown)
            &&& text_or_empty(shown) == first + second
        }),
{
    crate::terminal_laws::law_plain_chunks(progress.screen, first, second);
    let middle = progress.take_up(first_length, first).0;
    assert(middle.screen == progress.screen.render(first).0);
    assert(first.len() == 0 ==> first == Seq::<char>::empty());
    assert(second.len() == 0 ==> second == Seq::<char>::empty());
    assert((first + second).len() == 0 ==> first + second == Seq::<char>::empty());
}

/// What is shown never holds a character that moves the cursor or starts a control
/// sequence.
pub proof fn law_shown_progress_is_clean(progress: Progress, output: Seq<u8>)
    requires
        progress.wf(),
        progress.screen.clean(),
    ensures
        progress.next(output).0.wf(),
        progress.next(output).0.screen.clean(),
        progress.next(output).1 matches Some(shown) ==> shown.len() > 0
            && !crate::terminal::rewrites(shown),
{
    let chunk = progress.chunk(output);
    if chunk.len() > 0 {
        crate::terminal_laws::law_shown_text_is_clean(progress.screen, text::as_text(chunk));
    }
}

impl Progress {
    /// The progress after looks at the first so many bytes of `all` in turn, and all that
    /// was shown.
    pub open spec fn looks(self, all: Seq<u8>, lengths: Seq<int>) -> (Progress, Seq<char>)
        decreases lengths.len(),
    {
        if lengths.len() == 0 {
            (self, Seq::empty())
        } else {
            let (before, shown) = self.looks(all, lengths.drop_last());
            let (after, more) = before.next(all.take(lengths.last()));
            (after, shown + text_or_empty(more))
        }
    }
}

/// However often and whenever a growing output that is UTF-8 and rewrites nothing is
/// looked at, what is shown of it is its text up to the last character that was complete:
/// none of it is lost and none is shown twice. A look at the whole output completes it.
pub proof fn law_plain_output_is_shown(all: Seq<u8>, lengths: Seq<int>)
    requires
        valid_utf8(all),
        !crate::terminal::rewrites(decode_utf8(all)),
        forall|i: int| 0 <= i < lengths.len() ==> 0 <= #[trigger] lengths[i] <= all.len(),
    ensures
        ({
            let (progress, shown) = Progress::start().looks(all, lengths);
            &&& 0 <= progress.sent <= all.len()
            &&& valid_utf8(all.take(progress.sent))
            &&& shown == decode_utf8(all.take(progress.sent))
            &&& lengths.len() > 0 && lengths.last() == all.len() ==> shown == decode_utf8(all)
        }),
    decreases lengths.len(),
{
    if lengths.len() == 0 {
        assert(all.take(0) == Seq::<u8>::empty());
    } else {
        let shorter = lengths.drop_last();
        assert forall|i: int| 0 <= i < shorter.len() implies 0 <= #[trigger] shorter[i]
            <= all.len() by {
            assert(shorter[i] == lengths[i]);
        }
        law_plain_output_is_shown(all, shorter);
        let (before, shown) = Progress::start().looks(all, shorter);
        let length = lengths[lengths.len() - 1];
        let output = all.take(length);
        let chunk = before.chunk(output);
        if length > before.sent {
            let rest = all.skip(length);
            assert(output + rest == all);
            assert(output.take(before.sent) == all.take(before.sent));
            law_chunks_end_at_characters(before, output, rest);
            let sent = before.sent + chunk.len();
            assert(output.take(sent) == all.take(sent));
            let head = all.take(before.sent);
            let tail = all.skip(sent);
            assert(all.take(sent) + tail == all);
            assert(all.subrange(0, sent) == all.take(sent));
            assert(all.subrange(sent, all.len() as int) == tail);
            if !valid_utf8(tail) {
                partial_valid_partial_invalid_utf8(all, sent);
            }
            text::lemma_boundary(all.take(sent), tail);
            decode_utf8_split(all, sent);
            let text = decode_utf8(chunk);
            assert forall|i: int| 0 <= i < text.len() implies !crate::terminal::is_rewrite_control(
                #[trigger] text[i],
            ) by {
                assert(decode_utf8(all)[decode_utf8(head).len() + i] == text[i]);
            }
            assert(before.screen.render(text).1 == text);
            if length == all.len() {
                assert(output == all);
                law_complete_output_is_taken_up(before, all);
                assert(all.take(all.len() as int) == all);
            }
        } else {
            assert(chunk == Seq::<u8>::empty());
            if length == all.len() {
                assert(all.take(before.sent) == all);
            }
        }
    }
}

} // verus!
