use anda_extension::stream::{
    collect_progress_output, complete_utf8_prefix_len, is_utf8_continuation_byte,
    utf8_sequence_len, ProgressStreamState,
};
use anda_extension::terminal::{has_rewrite_control, TerminalProgressState};

#[test]
fn progress_stream_waits_for_complete_utf8_sequence() {
    let mut state = ProgressStreamState::default();
    let mut output = vec![0xe4, 0xb8];

    assert_eq!(state.next_output(&output), None);

    output.push(0xad);
    assert_eq!(state.next_output(&output).as_deref(), Some("中"));
}

#[test]
fn progress_stream_normalizes_rewritten_terminal_line() {
    let mut state = ProgressStreamState::default();

    assert_eq!(
        state.next_output(b"10%\r20%\r100%").as_deref(),
        Some("100%")
    );
}

#[test]
fn progress_stream_handles_ansi_clear_line() {
    let mut state = ProgressStreamState::default();

    assert_eq!(
        state.next_output(b"abcdef\rxy\x1b[K").as_deref(),
        Some("xy")
    );
}

#[test]
fn progress_stream_handles_backspace_on_utf8_character() {
    let mut state = ProgressStreamState::default();

    assert_eq!(
        state.next_output("中\x08文".as_bytes()).as_deref(),
        Some("文")
    );
}

#[test]
fn progress_stream_shows_each_part_once() {
    let mut state = ProgressStreamState::default();
    let mut output = b"one\n".to_vec();
    assert_eq!(state.next_output(&output).as_deref(), Some("one\n"));
    assert_eq!(state.next_output(&output), None);
    output.extend_from_slice(b"two");
    assert_eq!(state.next_output(&output).as_deref(), Some("two"));
    output.extend_from_slice(b" more\n");
    assert_eq!(state.next_output(&output).as_deref(), Some(" more\n"));
    assert_eq!(state.next_output(&output), None);
    // An output that has become shorter shows nothing.
    assert_eq!(state.next_output(b"on"), None);
}

#[test]
fn progress_stream_starts_with_nothing() {
    let mut state = ProgressStreamState::default();
    assert_eq!(state.next_output(b""), None);
}

#[test]
fn progress_stream_replaces_invalid_bytes() {
    let mut state = ProgressStreamState::default();
    assert_eq!(
        state.next_output(b"a\xffb").as_deref(),
        Some("a\u{fffd}b")
    );
}

#[test]
fn progress_stream_rewrites_the_line_of_an_earlier_chunk() {
    let mut state = ProgressStreamState::default();
    let mut output = b"Loading 10%".to_vec();
    assert_eq!(state.next_output(&output).as_deref(), Some("Loading 10%"));
    output.extend_from_slice(b"\x08\x08\x0820%");
    assert_eq!(state.next_output(&output).as_deref(), Some("Loading 20%"));
    output.extend_from_slice(b"\rDone\x1b[K");
    assert_eq!(state.next_output(&output).as_deref(), Some("Done"));
}

#[test]
fn progress_stream_hides_what_is_erased() {
    let mut state = ProgressStreamState::default();
    assert_eq!(state.next_output(b"abc\r\x1b[K"), None);
}

#[test]
fn utf8_prefix_ends_at_characters() {
    assert_eq!(complete_utf8_prefix_len(b""), 0);
    assert_eq!(complete_utf8_prefix_len(b"abc"), 3);
    assert_eq!(complete_utf8_prefix_len(&[0x61, 0xe4]), 1);
    assert_eq!(complete_utf8_prefix_len(&[0x61, 0xe4, 0xb8]), 1);
    assert_eq!(complete_utf8_prefix_len(&[0x61, 0xe4, 0xb8, 0xad]), 4);
    assert_eq!(complete_utf8_prefix_len(&[0xf0, 0x9f, 0x98]), 0);
    assert_eq!(complete_utf8_prefix_len(&[0xf0, 0x9f, 0x98, 0x80]), 4);
    assert_eq!(complete_utf8_prefix_len(&[0xc3]), 0);
    // Continuation bytes without a lead byte are not waited for.
    assert_eq!(complete_utf8_prefix_len(&[0x80, 0x80]), 2);
    // Nor is a byte that starts no character.
    assert_eq!(complete_utf8_prefix_len(&[0x61, 0xff]), 2);
    // Nor more bytes than the lead byte announces.
    assert_eq!(complete_utf8_prefix_len(&[0xc3, 0xa9, 0xa9]), 3);
}

#[test]
fn utf8_prefix_agrees_with_the_standard_library() {
    let text = "aé中😀b";
    let bytes = text.as_bytes();
    let mut end = 0;
    while end <= bytes.len() {
        let expected = match std::str::from_utf8(&bytes[..end]) {
            Ok(_) => end,
            Err(error) => error.valid_up_to(),
        };
        assert_eq!(complete_utf8_prefix_len(&bytes[..end]), expected);
        end += 1;
    }
}

#[test]
fn utf8_bytes_are_told_apart() {
    assert_eq!(utf8_sequence_len(0x7f), 1);
    assert_eq!(utf8_sequence_len(0x80), 1);
    assert_eq!(utf8_sequence_len(0xc3), 2);
    assert_eq!(utf8_sequence_len(0xe4), 3);
    assert_eq!(utf8_sequence_len(0xf0), 4);
    assert_eq!(utf8_sequence_len(0xf8), 1);
    assert!(is_utf8_continuation_byte(0x80));
    assert!(is_utf8_continuation_byte(0xbf));
    assert!(!is_utf8_continuation_byte(0x7f));
    assert!(!is_utf8_continuation_byte(0xc0));
}

#[test]
fn both_outputs_are_collected() {
    let mut out = ProgressStreamState::default();
    let mut err = ProgressStreamState::default();
    assert_eq!(collect_progress_output(b"", b"", &mut out, &mut err), None);
    assert_eq!(
        collect_progress_output(b"a", b"", &mut out, &mut err),
        Some(("a".to_string(), String::new()))
    );
    assert_eq!(
        collect_progress_output(b"a", b"warn", &mut out, &mut err),
        Some((String::new(), "warn".to_string()))
    );
    assert_eq!(
        collect_progress_output(b"ab", b"warn!", &mut out, &mut err),
        Some(("b".to_string(), "!".to_string()))
    );
    assert_eq!(collect_progress_output(b"ab", b"warn!", &mut out, &mut err), None);
}

#[test]
fn rewriting_text_is_recognized() {
    assert!(!has_rewrite_control("plain\ntext\t"));
    assert!(has_rewrite_control("a\rb"));
    assert!(has_rewrite_control("a\x08b"));
    assert!(has_rewrite_control("a\x1bb"));
    assert!(!has_rewrite_control(""));
}

fn rendered(text: &str) -> String {
    let mut state = TerminalProgressState::default();
    state.render(text)
}

#[test]
fn plain_text_is_shown_as_it_is() {
    assert_eq!(rendered("a  \n b "), "a  \n b ");
    assert_eq!(rendered(""), "");
}

#[test]
fn rewritten_lines_lose_trailing_blanks() {
    assert_eq!(rendered("abc  \r\nx  "), "abc\nx");
    assert_eq!(rendered("\r   "), "");
    assert_eq!(rendered("abcdef\rxy"), "xycdef");
    assert_eq!(rendered("ab\x08\x08\x08\x08cd"), "cd");
    assert_eq!(rendered("a\x08"), "a");
}

#[test]
fn escape_sequences_are_taken_out() {
    assert_eq!(rendered("\x1b[31mred\x1b[0m"), "red");
    assert_eq!(rendered("abc\r\x1b[2Kz"), "z");
    assert_eq!(rendered("\x1b]0;title\x07text"), "text");
    assert_eq!(rendered("\x1b]0;title\x1b\\text"), "text");
    assert_eq!(rendered("\x1b]0;title"), "");
    assert_eq!(rendered("\x1b[12"), "");
    assert_eq!(rendered("\x1bx"), "x");
    assert_eq!(rendered("a\x1b"), "a");
}

#[test]
fn terminal_steps_move_the_cursor() {
    let mut state = TerminalProgressState::default();
    state.write_char('a');
    state.write_char('é');
    state.move_cursor_left();
    state.write_char('中');
    assert_eq!(state.render_terminal_text(""), "a中");
    state.move_cursor_left();
    let sequence = ['[', 'K', 'z'];
    assert_eq!(state.apply_escape_sequence(&sequence, 0), 2);
    assert_eq!(state.render_terminal_text(""), "a");
    state.update_plain_text("b\nc");
    assert_eq!(state.render_terminal_text(""), "c");
}

#[test]
fn two_plain_chunks_leave_the_line_of_one() {
    let mut apart = TerminalProgressState::default();
    apart.render("one ");
    apart.render("two");
    let mut together = TerminalProgressState::default();
    together.render("one two");
    assert_eq!(apart.render("\r1"), "1ne two");
    assert_eq!(together.render("\r1"), "1ne two");
}

#[test]
fn plain_output_is_shown_whole_however_it_is_cut() {
    let text = "one\ntwo é 中 😀\nthree";
    let bytes = text.as_bytes();
    for first in 0..=bytes.len() {
        for second in 0..=bytes.len() {
            let mut state = ProgressStreamState::default();
            let mut shown = String::new();
            for length in [first, second, bytes.len()] {
                shown.push_str(&state.next_output(&bytes[..length]).unwrap_or_default());
            }
            assert_eq!(shown, text);
        }
    }
}

#[test]
fn a_second_look_shows_nothing() {
    let bytes = "one\ntwo é 中".as_bytes();
    for end in 0..=bytes.len() {
        let mut state = ProgressStreamState::default();
        state.next_output(&bytes[..end]);
        for part in 0..=end {
            assert_eq!(state.next_output(&bytes[..part]), None);
        }
    }
}

#[test]
fn rewritten_output_leaves_the_same_line_however_it_is_cut() {
    let text = "10%\r20%\x08\x08ab\nnext line\rN";
    let chars: Vec<char> = text.chars().collect();
    let mut whole = TerminalProgressState::default();
    whole.render(text);
    let expected = whole.render_terminal_text("");
    assert_eq!(expected, "Next line");
    for cut in 0..=chars.len() {
        let mut state = TerminalProgressState::default();
        state.render(&chars[..cut].iter().collect::<String>());
        state.render(&chars[cut..].iter().collect::<String>());
        assert_eq!(state.render_terminal_text(""), expected);
    }
}
