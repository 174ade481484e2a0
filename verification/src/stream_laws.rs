//! How a growing output is taken up, byte by byte.
use crate::stream;
use crate::stream::Progress;
use crate::terminal::Screen;
use crate::text;
use vstd::prelude::*;
use vstd::utf8::*;

verus! {

/// How many bytes of a character a byte announces, itself among them: more than one where
/// it is the first byte of a longer character.
pub open spec fn announced(byte: u8) -> int {
    if 0xc0 <= byte <= 0xdf {
        2
    } else if 0xe0 <= byte <= 0xef {
        3
    } else if 0xf0 <= byte <= 0xf7 {
        4
    } else {
        1
    }
}

/// The length of a character is read off its first byte.
pub proof fn law_announced_length(byte: u8)
    ensures
        stream::sequence_length(byte) == announced(byte),
{
}

/// True when the bytes from `at` on are the start of a character that is not complete.
pub open spec fn is_cut_at(bytes: Seq<u8>, at: int) -> bool {
    &&& 0 <= at < bytes.len()
    &&& bytes.len() - at < announced(bytes[at])
    &&& forall|i: int| at < i < bytes.len() ==> 0x80 <= #[trigger] bytes[i] <= 0xbf
}

/// Only the start of a character that is not complete waits for the rest: where the bytes
/// end with one, all before it can be read, and otherwise all of them can.
pub proof fn law_what_waits(bytes: Seq<u8>)
    ensures
        0 <= stream::complete_prefix(bytes) <= bytes.len(),
        bytes.len() - stream::complete_prefix(bytes) <= 3,
        forall|at: int| #[trigger] is_cut_at(bytes, at) ==> stream::complete_prefix(bytes) == at,
        stream::complete_prefix(bytes) < bytes.len() ==> is_cut_at(
            bytes,
            stream::complete_prefix(bytes),
        ),
{
    stream::lemma_continuation_start(bytes);
    let start = stream::continuation_start(bytes);
    if stream::complete_prefix(bytes) < bytes.len() {
        assert forall|i: int| start - 1 < i < bytes.len() implies 0x80 <= #[trigger] bytes[i]
            <= 0xbf by {
            assert(is_continuation_byte(bytes[i]));
        }
    }
    assert forall|at: int| #[trigger] is_cut_at(bytes, at) implies stream::complete_prefix(bytes)
        == at by {
        if start <= at {
            assert(is_continuation_byte(bytes[at]));
        } else if at < start - 1 {
            assert(0x80 <= bytes[start - 1] <= 0xbf);
        }
    }
}

/// Looks take up an output in order and without gaps: each goes on where the last one
/// ended, and leaves at most the start of one character.
pub proof fn law_looks_follow_each_other(progress: Progress, output: Seq<u8>)
    requires
        0 <= progress.sent,
    ensures
        ({
            let (after, shown) = progress.next(output);
            &&& output.len() <= progress.sent ==> after == progress && shown is None
            &&& output.len() > progress.sent ==> {
                &&& progress.sent <= after.sent <= output.len()
                &&& progress.chunk(output) == output.subrange(progress.sent, after.sent)
                &&& output.len() - after.sent <= 3
                &&& after.sent < output.len() ==> is_cut_at(
                    output.skip(progress.sent),
                    after.sent - progress.sent,
                )
            }
        }),
{
    if output.len() > progress.sent {
        let unread = output.skip(progress.sent);
        law_what_waits(unread);
        let count = stream::complete_prefix(unread);
        assert(progress.chunk(output) == unread.take(count));
        assert(unread.take(count) == output.subrange(progress.sent, progress.sent + count));
    }
}

/// What a look shows is what the screen renders of the text that was taken up, and nothing
/// rather than an empty text. The screen is the one that rendering leaves.
pub proof fn law_look_shows_what_is_rendered(progress: Progress, output: Seq<u8>)
    requires
        0 <= progress.sent <= output.len(),
    ensures
        ({
            let (after, shown) = progress.next(output);
            let bytes = output.subrange(progress.sent, after.sent);
            let (screen, rendered) = progress.screen.render(text::as_text(bytes));
            if bytes.len() == 0 {
                after == progress && shown is None
            } else {
                &&& after.screen == screen
                &&& rendered.len() == 0 ==> shown is None
                &&& rendered.len() > 0 ==> shown == Some(rendered)
            }
        }),
{
    law_looks_follow_each_other(progress, output);
    if output.len() <= progress.sent {
        assert(progress.chunk(output).len() == 0);
    }
}

/// Nothing has been taken up at the start, and the line is empty.
pub proof fn law_progress_starts_empty()
    ensures
        Progress::start().sent == 0,
        Progress::start().screen == (Screen { line: Seq::empty(), column: 0 }),
{
}

} // verus!
