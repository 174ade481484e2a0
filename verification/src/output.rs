//! The output of a process, as it is reported.
use crate::text;
use crate::text::{bytes_of, text_of};
use vstd::prelude::*;
use vstd::slice::slice_subrange;
use vstd::string::*;
use vstd::utf8::*;

verus! {

/// The byte that ends a line.
pub const NEWLINE: u8 = 10;

/// What is reported of a process.
#[derive(Debug, Clone)]
pub struct ExecOutput<T> {
    /// The directory that the process ran in.
    pub workspace: Option<T>,
    /// The process.
    pub process_id: Option<u32>,
    /// How the process ended.
    pub exit_status: Option<T>,
    /// What it wrote to its standard output.
    pub stdout: Option<T>,
    /// What it wrote to its standard error output, and what went wrong with it.
    pub stderr: Option<T>,
    /// Where the whole output is kept.
    pub raw_output_path: Option<T>,
}

/// The model of a report.
pub type OutputModel = ExecOutput<Seq<char>>;

impl<T: DeepView> DeepView for ExecOutput<T> {
    type V = ExecOutput<T::V>;

    open spec fn deep_view(&self) -> ExecOutput<T::V> {
        ExecOutput {
            workspace: self.workspace.deep_view(),
            process_id: self.process_id,
            exit_status: self.exit_status.deep_view(),
            stdout: self.stdout.deep_view(),
            stderr: self.stderr.deep_view(),
            raw_output_path: self.raw_output_path.deep_view(),
        }
    }
}

impl ExecOutput<Seq<char>> {
    /// The report without anything in it.
    pub open spec fn empty() -> OutputModel {
        ExecOutput {
            workspace: None,
            process_id: None,
            exit_status: None,
            stdout: None,
            stderr: None,
            raw_output_path: None,
        }
    }
}

impl Default for ExecOutput<String> {
    /// The report without anything in it.
    fn default() -> (output: Self)
        ensures
            output.deep_view() == ExecOutput::empty(),
    {
        ExecOutput {
            workspace: None,
            process_id: None,
            exit_status: None,
            stdout: None,
            stderr: None,
            raw_output_path: None,
        }
    }
}

/// The text, or nothing where it is empty.
pub open spec fn non_empty(text: Seq<char>) -> Option<Seq<char>> {
    if text.len() == 0 {
        None
    } else {
        Some(text)
    }
}

/// The report of two texts that a process wrote.
pub open spec fn chunks_report(
    process_id: Option<u32>,
    workspace: Seq<char>,
    stdout: Seq<char>,
    stderr: Seq<char>,
) -> OutputModel {
    ExecOutput {
        workspace: Some(workspace),
        process_id,
        stdout: non_empty(stdout),
        stderr: non_empty(stderr),
        ..ExecOutput::empty()
    }
}

fn non_empty_string(text: String) -> (result: Option<String>)
    ensures
        result.deep_view() == non_empty(text@),
{
    if text.as_str().is_empty() {
        None
    } else {
        Some(text)
    }
}

/// Reports two texts that a process wrote.
pub fn output_chunks_to_exec_output(
    process_id: Option<u32>,
    workspace: &str,
    stdout: String,
    stderr: String,
) -> (output: ExecOutput<String>)
    ensures
        output.deep_view() == chunks_report(process_id, workspace@, stdout@, stderr@),
{
    ExecOutput {
        workspace: Some(workspace.to_string()),
        process_id,
        exit_status: None,
        stdout: non_empty_string(stdout),
        stderr: non_empty_string(stderr),
        raw_output_path: None,
    }
}

/// Reports the bytes that a process wrote, with replacement characters for what is not
/// UTF-8.
pub fn output_bytes_to_exec_output(
    process_id: Option<u32>,
    workspace: &str,
    stdout: &Vec<u8>,
    stderr: &Vec<u8>,
) -> (output: ExecOutput<String>)
    ensures
        output.deep_view() == chunks_report(
            process_id,
            workspace@,
            text::as_text(stdout@),
            text::as_text(stderr@),
        ),
{
    output_chunks_to_exec_output(
        process_id,
        workspace,
        text_of(stdout.as_slice()),
        text_of(stderr.as_slice()),
    )
}

/// The bytes with the error at their end, on a line of its own.
pub open spec fn with_read_error(stderr: Seq<u8>, error: Seq<char>) -> Seq<u8> {
    if stderr.len() > 0 && stderr.last() != NEWLINE {
        stderr.push(NEWLINE) + encode_utf8(error)
    } else {
        stderr + encode_utf8(error)
    }
}

/// Appends the error to the bytes, on a line of its own.
pub fn append_output_read_error(stderr: &mut Vec<u8>, error: &str)
    ensures
        final(stderr)@ == with_read_error(old(stderr)@, error@),
{
    if stderr.len() > 0 && stderr[stderr.len() - 1] != NEWLINE {
        stderr.push(NEWLINE);
    }
    let mut bytes = bytes_of(error);
    stderr.append(&mut bytes);
}

/// How the reading of an output ended.
pub enum ReaderOutcome<T> {
    /// At the end of the output.
    Finished,
    /// With an error of the output.
    ReadFailed(T),
    /// With an error of the task that reads.
    JoinFailed(T),
}

impl<T: DeepView> DeepView for ReaderOutcome<T> {
    type V = ReaderOutcome<T::V>;

    open spec fn deep_view(&self) -> ReaderOutcome<T::V> {
        match self {
            ReaderOutcome::Finished => ReaderOutcome::Finished,
            ReaderOutcome::ReadFailed(error) => ReaderOutcome::ReadFailed(error.deep_view()),
            ReaderOutcome::JoinFailed(error) => ReaderOutcome::JoinFailed(error.deep_view()),
        }
    }
}

/// What is reported of how the reading of an output ended.
pub open spec fn reader_error(
    outcome: ReaderOutcome<Seq<char>>,
    stream_name: Seq<char>,
) -> Option<Seq<char>> {
    match outcome {
        ReaderOutcome::Finished => None,
        ReaderOutcome::ReadFailed(error) => Some(
            "Failed to read background "@ + stream_name + ": "@ + error,
        ),
        ReaderOutcome::JoinFailed(error) => Some(
            "Failed to join background "@ + stream_name + " reader: "@ + error,
        ),
    }
}

/// Reports how the reading of an output ended, where that was an error.
pub fn output_reader_error(outcome: &ReaderOutcome<String>, stream_name: &str) -> (error: Option<
    String,
>)
    ensures
        error.deep_view() == reader_error(outcome.deep_view(), stream_name@),
{
    match outcome {
        ReaderOutcome::Finished => None,
        ReaderOutcome::ReadFailed(error) => {
            let mut message = "Failed to read background ".to_string();
            message.append(stream_name);
            message.append(": ");
            message.append(error.as_str());
            Some(message)
        },
        ReaderOutcome::JoinFailed(error) => {
            let mut message = "Failed to join background ".to_string();
            message.append(stream_name);
            message.append(" reader: ");
            message.append(error.as_str());
            Some(message)
        },
    }
}

/// Takes up the first `length` bytes of a chunk that was read. Returns whether more may
/// come: a read of no bytes ends the output.
pub fn accept_output_chunk(output: &mut Vec<u8>, chunk: &[u8], length: usize) -> (more: bool)
    requires
        length <= chunk@.len(),
    ensures
        final(output)@ == old(output)@ + chunk@.take(length as int),
        more == (length > 0),
{
    if length == 0 {
        return false;
    }
    let mut part = vstd::slice::slice_to_vec(slice_subrange(chunk, 0, length));
    output.append(&mut part);
    assert(output@ == old(output)@ + chunk@.take(length as int));
    true
}

/// An error that is appended loses none of the bytes before it, and stands whole at the
/// end, at the start of a line.
pub proof fn law_read_error_is_appended(stderr: Seq<u8>, error: Seq<char>)
    ensures
        ({
            let all = with_read_error(stderr, error);
            let start = all.len() - encode_utf8(error).len();
            &&& stderr.is_prefix_of(all)
            &&& start >= stderr.len()
            &&& all.skip(start) == encode_utf8(error)
            &&& start == 0 || all[start - 1] == NEWLINE
            &&& start == stderr.len() || (start == stderr.len() + 1 && stderr.last() != NEWLINE)
        }),
{
    let all = with_read_error(stderr, error);
    let start = all.len() - encode_utf8(error).len();
    assert(stderr == all.subrange(0, stderr.len() as int));
    assert(all.skip(start) == encode_utf8(error));
}

/// A report of texts that a process wrote holds the process, the directory and each text
/// that is not empty in its place, and says nothing of how the process ended.
pub proof fn law_report_of_texts(
    process_id: Option<u32>,
    workspace: Seq<char>,
    stdout: Seq<char>,
    stderr: Seq<char>,
)
    ensures
        ({
            let report = chunks_report(process_id, workspace, stdout, stderr);
            &&& report.workspace == Some(workspace)
            &&& report.process_id == process_id
            &&& stdout.len() == 0 ==> report.stdout is None
            &&& stdout.len() > 0 ==> report.stdout == Some(stdout)
            &&& stderr.len() == 0 ==> report.stderr is None
            &&& stderr.len() > 0 ==> report.stderr == Some(stderr)
            &&& report.exit_status is None
            &&& report.raw_output_path is None
        }),
{
}

/// The end of a line, as text.
pub proof fn lemma_newline()
    ensures
        valid_utf8(seq![NEWLINE]),
        decode_utf8(seq![NEWLINE]) == seq!['\n'],
{
    let line_end = seq!['\n'];
    assert(line_end.drop_first() == Seq::<char>::empty());
    assert(encode_utf8(line_end) == seq![NEWLINE]) by {
        reveal_with_fuel(encode_utf8, 2);
        is_ascii_chars_encode_utf8(line_end);
    }
    encode_utf8_valid_utf8(line_end);
    encode_utf8_decode_utf8(line_end);
}

/// An error that is appended to text is read as text behind it.
pub proof fn law_read_error_is_text(stderr: Seq<u8>, error: Seq<char>)
    requires
        valid_utf8(stderr),
    ensures
        valid_utf8(with_read_error(stderr, error)),
        decode_utf8(with_read_error(stderr, error)) == decode_utf8(stderr) + (if stderr.len() > 0
            && stderr.last() != NEWLINE {
            seq!['\n']
        } else {
            Seq::empty()
        }) + error,
{
    let message = encode_utf8(error);
    encode_utf8_valid_utf8(error);
    encode_utf8_decode_utf8(error);
    lemma_newline();
    if stderr.len() > 0 && stderr.last() != NEWLINE {
        assert(stderr.push(NEWLINE) == stderr + seq![NEWLINE]);
        text::lemma_decode_append(stderr, seq![NEWLINE]);
        text::lemma_decode_append(stderr + seq![NEWLINE], message);
    } else {
        text::lemma_decode_append(stderr, message);
        assert(decode_utf8(stderr) + Seq::<char>::empty() == decode_utf8(stderr));
    }
}

} // verus!
