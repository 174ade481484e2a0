use anda_core::RequestMeta;
use anda_extension::guard::{
    default_write_encoding, ensure_file_size_within_limit, ensure_regular_file,
    has_multiple_hard_links, FileFacts, BASE64_ENCODING, MAX_FILE_SIZE_BYTES, UTF8_ENCODING,
};
use anda_extension::path::PosixPath;
use anda_extension::request::{paths_from_texts, request_paths};
use anda_extension::workspace::{
    ensure_path_in_workspace, ensure_path_in_workspace_namespace, format_workspaces,
    merge_workspaces, normalize_relative_path, normalize_workspaces,
    path_contains_parent_reference, push_workspace, tool_workspaces, workspace_access_error,
};
use serde_json::Value;

fn posix(text: &str) -> PosixPath {
    PosixPath::from_text(text)
}

fn posix_all(texts: &[&str]) -> Vec<PosixPath> {
    texts.iter().map(|t| posix(t)).collect()
}

fn shown(paths: &[PosixPath]) -> Vec<String> {
    paths.iter().map(|p| p.display()).collect()
}

fn string(text: &str) -> Value {
    Value::String(text.to_string())
}

fn meta(entries: &[(&str, Value)]) -> RequestMeta {
    let mut meta = RequestMeta::default();
    for (key, value) in entries {
        meta.extra.insert(key.to_string(), value.clone());
    }
    meta
}

#[test]
fn workspaces_are_listed_once() {
    let listed = normalize_workspaces(posix_all(&["/a", "", "/b", "/a/", "/a/.", "b", "/b"]));
    assert_eq!(shown(&listed), ["/a", "/b", "b"]);
    let again = normalize_workspaces(listed);
    assert_eq!(shown(&again), ["/a", "/b", "b"]);
}

#[test]
fn a_workspace_is_pushed_at_the_end() {
    let mut list = posix_all(&["/a"]);
    push_workspace(&mut list, posix("/b"));
    push_workspace(&mut list, posix("/a//"));
    push_workspace(&mut list, posix(""));
    assert_eq!(shown(&list), ["/a", "/b"]);
}

#[test]
fn merged_workspaces_stand_before_the_defaults() {
    let merged = merge_workspaces(
        &posix_all(&["/one"]),
        &posix_all(&["/two", "/one"]),
        &posix_all(&["/default", "/two"]),
    );
    assert_eq!(shown(&merged), ["/one", "/two", "/default"]);
}

#[test]
fn merging_is_normalizing_the_whole_list() {
    let named = ["/b/", "", "/a", "/b", "/c", "/a/."];
    let merged = merge_workspaces(
        &posix_all(&named[..2]),
        &posix_all(&named[2..4]),
        &posix_all(&named[4..]),
    );
    assert_eq!(shown(&merged), shown(&normalize_workspaces(posix_all(&named))));
    assert_eq!(shown(&merged), ["/b/", "/a", "/c"]);
}

#[test]
fn tool_workspaces_come_from_the_request_and_the_defaults() {
    let defaults = posix_all(&["/default"]);
    assert_eq!(shown(&tool_workspaces(&meta(&[]), &defaults)), ["/default"]);

    let one = meta(&[("workspace", string("/one"))]);
    assert_eq!(shown(&tool_workspaces(&one, &defaults)), ["/one", "/default"]);

    let list = Value::Array(vec![string("/x"), string("/y"), string("/x")]);
    let both = meta(&[("workspace", list), ("workspaces", string("/z"))]);
    assert_eq!(shown(&tool_workspaces(&both, &defaults)), ["/x", "/y", "/z", "/default"]);

    let many = meta(&[(
        "workspaces",
        Value::Array(vec![string("/default"), string("/m")]),
    )]);
    assert_eq!(shown(&tool_workspaces(&many, &defaults)), ["/default", "/m"]);
}

#[test]
fn entries_of_another_shape_name_no_workspace() {
    let odd = meta(&[
        ("workspace", Value::Bool(true)),
        ("workspaces", Value::Array(vec![string("/a"), Value::Null])),
    ]);
    assert!(request_paths(&odd, "workspace").is_empty());
    assert!(request_paths(&odd, "workspaces").is_empty());
    assert!(request_paths(&odd, "other").is_empty());
    assert_eq!(shown(&tool_workspaces(&odd, &posix_all(&["/d"]))), ["/d"]);
}

#[test]
fn request_entries_become_paths() {
    let named = meta(&[
        ("one", string("/é")),
        ("many", Value::Array(vec![string("a"), string("")])),
    ]);
    assert_eq!(shown(&request_paths(&named, "one")), ["/é"]);
    assert_eq!(shown(&request_paths(&named, "many")), ["a", ""]);
    let texts = vec!["p".to_string(), "q/r".to_string()];
    assert_eq!(shown(&paths_from_texts(&texts)), ["p", "q/r"]);
}

#[test]
fn workspaces_are_formatted() {
    assert_eq!(format_workspaces(&[]), "<none>");
    assert_eq!(format_workspaces(&posix_all(&["/a"])), "/a");
    assert_eq!(format_workspaces(&posix_all(&["/a", "/b", "c"])), "/a, /b, c");
}

#[test]
fn access_errors_list_what_went_wrong() {
    assert_eq!(
        workspace_access_error("Path", "requested_path", "x", &[], &Vec::new()),
        "Path is not accessible from any configured workspace (requested_path: x, workspaces: [<none>])"
    );
    let errors = vec!["/a: no".to_string(), "/b: never".to_string()];
    assert_eq!(
        workspace_access_error("Dir", "dir", "y", &posix_all(&["/a", "/b"]), &errors),
        "Dir is not accessible from any configured workspace (dir: y, workspaces: [/a, /b]); errors: /a: no; /b: never"
    );
}

#[test]
fn resolved_paths_must_lie_in_the_workspace() {
    assert_eq!(ensure_path_in_workspace(&posix("/w"), &posix("/w/a")), Ok(()));
    assert_eq!(ensure_path_in_workspace(&posix("/w"), &posix("/w")), Ok(()));
    assert_eq!(
        ensure_path_in_workspace(&posix("/w"), &posix("/ww/a")),
        Err("Access to paths outside the workspace is not allowed (resolved_workspace: /w, resolved_path: /ww/a)".to_string())
    );
}

#[test]
fn namespaces_are_the_workspace_as_written_or_resolved() {
    let written = posix("/link");
    let resolved = posix("/real");
    assert_eq!(
        ensure_path_in_workspace_namespace(&written, &resolved, &posix("/link/a")),
        Ok(())
    );
    assert_eq!(
        ensure_path_in_workspace_namespace(&written, &resolved, &posix("/real/a")),
        Ok(())
    );
    assert_eq!(
        ensure_path_in_workspace_namespace(&written, &resolved, &posix("/etc")),
        Err("Access to paths outside the workspace is not allowed (workspace: /link, resolved_workspace: /real, requested_path: /etc)".to_string())
    );
}

#[test]
fn parent_references_are_found() {
    assert!(path_contains_parent_reference(&posix("a/../b")));
    assert!(path_contains_parent_reference(&posix("..")));
    assert!(!path_contains_parent_reference(&posix("a/..b/c..")));
}

#[test]
fn relative_paths_are_normalized() {
    assert_eq!(normalize_relative_path(&posix(""), '/'), ".");
    assert_eq!(normalize_relative_path(&posix("a/b"), '/'), "a/b");
    assert_eq!(normalize_relative_path(&posix("a\\b/c"), '/'), "a\\b/c");
    assert_eq!(normalize_relative_path(&posix("a\\b/c"), '\\'), "a/b/c");
    assert_eq!(normalize_relative_path(&posix(""), '\\'), ".");
    assert_eq!(
        normalize_relative_path(&PosixPath::from_bytes(vec![0xff]), '/'),
        "\u{fffd}"
    );
}

#[test]
fn encodings_have_names() {
    assert_eq!(default_write_encoding(), "utf8");
    assert_eq!(UTF8_ENCODING, "utf8");
    assert_eq!(BASE64_ENCODING, "base64");
}

#[test]
fn regular_files_with_one_name_are_accepted() {
    let path = posix("/w/f");
    let file = FileFacts { link_count: 1, is_file: true, size: 0 };
    assert!(!has_multiple_hard_links(&file));
    assert_eq!(ensure_regular_file(&file, &path, "Linked"), Ok(()));

    let linked = FileFacts { link_count: 2, is_file: false, size: 0 };
    assert!(has_multiple_hard_links(&linked));
    assert_eq!(
        ensure_regular_file(&linked, &path, "Linked"),
        Err("Linked (path: /w/f)".to_string())
    );

    let directory = FileFacts { link_count: 0, is_file: false, size: 0 };
    assert_eq!(
        ensure_regular_file(&directory, &path, "Linked"),
        Err("Path does not point to a regular file (path: /w/f)".to_string())
    );
}

#[test]
fn large_files_are_refused() {
    assert_eq!(MAX_FILE_SIZE_BYTES, 10_485_760);
    let path = posix("f");
    let full = FileFacts { link_count: 1, is_file: true, size: MAX_FILE_SIZE_BYTES };
    assert_eq!(ensure_file_size_within_limit(&full, &path, MAX_FILE_SIZE_BYTES), Ok(()));
    let large = FileFacts { link_count: 1, is_file: true, size: MAX_FILE_SIZE_BYTES + 1 };
    assert_eq!(
        ensure_file_size_within_limit(&large, &path, MAX_FILE_SIZE_BYTES),
        Err("File size 10485761 exceeds maximum allowed size of 10485760 bytes (path: f)".to_string())
    );
    let huge = FileFacts { link_count: 1, is_file: true, size: u64::MAX };
    assert_eq!(
        ensure_file_size_within_limit(&huge, &path, 0),
        Err("File size 18446744073709551615 exceeds maximum allowed size of 0 bytes (path: f)".to_string())
    );
}
