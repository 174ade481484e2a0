//! What a file must be before it is read or written.
use crate::path::PosixPath;
use crate::text;
use crate::text::decimal_string;
use vstd::prelude::*;
use vstd::string::*;

verus! {

/// The largest file that is read or written, in bytes.
pub const MAX_FILE_SIZE_BYTES: u64 = 10 * 1024 * 1024;

/// The name of the encoding for text.
pub const UTF8_ENCODING: &'static str = "utf8";

/// The name of the encoding for other bytes.
pub const BASE64_ENCODING: &'static str = "base64";

/// What is known of a file.
pub struct FileFacts {
    /// How many names lead to the file.
    pub link_count: u64,
    /// True for a regular file.
    pub is_file: bool,
    /// How many bytes the file has.
    pub size: u64,
}

/// The default encoding used for file writes.
pub fn default_write_encoding() -> (name: String)
    ensures
        name@ == UTF8_ENCODING@,
        name@ == "utf8"@,
{
    UTF8_ENCODING.to_string()
}

/// True when a file has multiple hard links.
///
/// Multiple links can allow path-based workspace guards to be bypassed by linking a
/// workspace path to other content.
pub fn has_multiple_hard_links(facts: &FileFacts) -> (found: bool)
    ensures
        found == (facts.link_count > 1),
{
    facts.link_count > 1
}

/// The error for a file with several hard links.
pub open spec fn hard_link_message(hard_link_error: Seq<char>, path: Seq<u8>) -> Seq<char> {
    hard_link_error + " (path: "@ + text::as_text(path) + ")"@
}

/// The error for a path that leads to something other than a regular file.
pub open spec fn not_regular_message(path: Seq<u8>) -> Seq<char> {
    "Path does not point to a regular file (path: "@ + text::as_text(path) + ")"@
}

/// Accepts a regular file with one name.
pub fn ensure_regular_file(facts: &FileFacts, path: &PosixPath, hard_link_error: &str) -> (result:
    Result<(), String>)
    ensures
        result is Ok <==> facts.is_file && facts.link_count <= 1,
        result matches Err(error) ==> error@ == (if facts.link_count > 1 {
            hard_link_message(hard_link_error@, path@)
        } else {
            not_regular_message(path@)
        }),
{
    if has_multiple_hard_links(facts) {
        let mut error = hard_link_error.to_string();
        error.append(" (path: ");
        error.append(path.display().as_str());
        error.append(")");
        return Err(error);
    }
    if !facts.is_file {
        let mut error = "Path does not point to a regular file (path: ".to_string();
        error.append(path.display().as_str());
        error.append(")");
        return Err(error);
    }
    Ok(())
}

/// The error for a file that is too large.
pub open spec fn too_large_message(size: u64, max_size_bytes: u64, path: Seq<u8>) -> Seq<char> {
    "File size "@ + text::decimal(size as nat) + " exceeds maximum allowed size of "@
        + text::decimal(max_size_bytes as nat) + " bytes (path: "@ + text::as_text(path) + ")"@
}

/// Accepts a file of at most `max_size_bytes`.
pub fn ensure_file_size_within_limit(
    facts: &FileFacts,
    path: &PosixPath,
    max_size_bytes: u64,
) -> (result: Result<(), String>)
    ensures
        result is Ok <==> facts.size <= max_size_bytes,
        result matches Err(error) ==> error@ == too_large_message(
            facts.size,
            max_size_bytes,
            path@,
        ),
{
    if facts.size > max_size_bytes {
        let mut error = "File size ".to_string();
        error.append(decimal_string(facts.size).as_str());
        error.append(" exceeds maximum allowed size of ");
        error.append(decimal_string(max_size_bytes).as_str());
        error.append(" bytes (path: ");
        error.append(path.display().as_str());
        error.append(")");
        return Err(error);
    }
    Ok(())
}

} // verus!
