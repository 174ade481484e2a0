//! Workspaces: the directories that file access is confined to.
use crate::path;
use crate::path::PosixPath;
use crate::request;
use crate::request::request_paths;
use crate::text;
use crate::text::{chars_of, join_strings};
use anda_core::RequestMeta;
use vstd::prelude::*;
use vstd::string::*;

verus! {

/// True when the list holds a path with the same components as `workspace`.
pub open spec fn lists(workspaces: Seq<Seq<u8>>, workspace: Seq<u8>) -> bool {
    exists|i: int| 0 <= i < workspaces.len() && path::same_path(#[trigger] workspaces[i], workspace)
}

/// The list with `workspace` at its end, unless that is empty or listed already.
pub open spec fn with_workspace(workspaces: Seq<Seq<u8>>, workspace: Seq<u8>) -> Seq<Seq<u8>> {
    if workspace.len() == 0 || lists(workspaces, workspace) {
        workspaces
    } else {
        workspaces.push(workspace)
    }
}

/// The list with each of `more` added in turn.
pub open spec fn with_workspaces(workspaces: Seq<Seq<u8>>, more: Seq<Seq<u8>>) -> Seq<Seq<u8>>
    decreases more.len(),
{
    if more.len() == 0 {
        workspaces
    } else {
        with_workspace(with_workspaces(workspaces, more.drop_last()), more.last())
    }
}

/// Adds `workspace` to the list, unless it is empty or listed already.
pub fn push_workspace(workspaces: &mut Vec<PosixPath>, workspace: PosixPath)
    ensures
        path::path_bytes(final(workspaces)@) == with_workspace(
            path::path_bytes(old(workspaces)@),
            workspace@,
        ),
{
    if workspace.is_empty() {
        return;
    }
    let ghost listed = path::path_bytes(workspaces@);
    let mut i: usize = 0;
    while i < workspaces.len()
        invariant
            i <= workspaces.len(),
            workspaces@ == old(workspaces)@,
            listed == path::path_bytes(workspaces@),
            forall|j: int| 0 <= j < i ==> !path::same_path(#[trigger] listed[j], workspace@),
        decreases workspaces.len() - i,
    {
        if workspaces[i].same_path(&workspace) {
            assert(path::same_path(listed[i as int], workspace@));
            return;
        }
        i += 1;
    }
    workspaces.push(workspace);
    assert(path::path_bytes(workspaces@) == listed.push(workspace@));
}

/// Adds each of `more` to the list in turn.
fn push_workspaces(workspaces: &mut Vec<PosixPath>, more: &[PosixPath])
    ensures
        path::path_bytes(final(workspaces)@) == with_workspaces(
            path::path_bytes(old(workspaces)@),
            path::path_bytes(more@),
        ),
{
    let ghost all = path::path_bytes(more@);
    let mut i: usize = 0;
    while i < more.len()
        invariant
            i <= more@.len(),
            all == path::path_bytes(more@),
            path::path_bytes(workspaces@) == with_workspaces(
                path::path_bytes(old(workspaces)@),
                all.take(i as int),
            ),
        decreases more@.len() - i,
    {
        push_workspace(workspaces, more[i].clone());
        assert(all.take(i + 1).drop_last() == all.take(i as int));
        i += 1;
    }
    assert(all.take(i as int) == all);
}

/// The workspaces in order, without empty ones and without repetitions.
pub fn normalize_workspaces(workspaces: Vec<PosixPath>) -> (normalized: Vec<PosixPath>)
    ensures
        path::path_bytes(normalized@) == with_workspaces(
            Seq::empty(),
            path::path_bytes(workspaces@),
        ),
{
    let mut normalized: Vec<PosixPath> = Vec::new();
    assert(path::path_bytes(normalized@) == Seq::<Seq<u8>>::empty());
    push_workspaces(&mut normalized, workspaces.as_slice());
    normalized
}

/// The workspaces of a request: those under the two keys of its metadata, then the
/// defaults.
pub open spec fn merged_workspaces(
    workspace: Seq<Seq<u8>>,
    workspaces: Seq<Seq<u8>>,
    defaults: Seq<Seq<u8>>,
) -> Seq<Seq<u8>> {
    with_workspaces(with_workspaces(with_workspaces(Seq::empty(), workspace), workspaces), defaults)
}

/// Merges the paths that a request names under its two keys with the defaults.
pub fn merge_workspaces(
    workspace: &Vec<PosixPath>,
    workspaces: &Vec<PosixPath>,
    defaults: &[PosixPath],
) -> (merged: Vec<PosixPath>)
    ensures
        path::path_bytes(merged@) == merged_workspaces(
            path::path_bytes(workspace@),
            path::path_bytes(workspaces@),
            path::path_bytes(defaults@),
        ),
{
    let mut merged: Vec<PosixPath> = Vec::new();
    assert(path::path_bytes(merged@) == Seq::<Seq<u8>>::empty());
    push_workspaces(&mut merged, workspace.as_slice());
    push_workspaces(&mut merged, workspaces.as_slice());
    push_workspaces(&mut merged, defaults);
    merged
}

/// The workspaces that a tool call may use: those that the request's metadata names
/// under `workspace` and `workspaces`, then the defaults.
pub fn tool_workspaces(meta: &RequestMeta, defaults: &[PosixPath]) -> (workspaces: Vec<PosixPath>)
    ensures
        path::path_bytes(workspaces@) == merged_workspaces(
            request::extra_paths(*meta, "workspace"@),
            request::extra_paths(*meta, "workspaces"@),
            path::path_bytes(defaults@),
        ),
{
    let workspace = request_paths(meta, "workspace");
    let workspaces = request_paths(meta, "workspaces");
    merge_workspaces(&workspace, &workspaces, defaults)
}

/// The paths as texts.
pub open spec fn displayed(paths: Seq<Seq<u8>>) -> Seq<Seq<char>> {
    paths.map_values(|p: Seq<u8>| text::as_text(p))
}

/// The list of workspaces, as it is shown in an error.
pub open spec fn formatted_workspaces(workspaces: Seq<Seq<u8>>) -> Seq<char> {
    if workspaces.len() == 0 {
        "<none>"@
    } else {
        text::joined(displayed(workspaces), ", "@)
    }
}

/// Writes the list of workspaces as it is shown in an error.
pub fn format_workspaces(workspaces: &[PosixPath]) -> (result: String)
    ensures
        result@ == formatted_workspaces(path::path_bytes(workspaces@)),
{
    if workspaces.len() == 0 {
        return "<none>".to_string();
    }
    let mut names: Vec<String> = Vec::new();
    let ghost all = displayed(path::path_bytes(workspaces@));
    let mut i: usize = 0;
    while i < workspaces.len()
        invariant
            i <= workspaces@.len(),
            all == displayed(path::path_bytes(workspaces@)),
            text::texts(names@) == all.take(i as int),
        decreases workspaces@.len() - i,
    {
        let ghost before = names@;
        names.push(workspaces[i].display());
        assert(text::texts(names@) == text::texts(before).push(all[i as int]));
        assert(all.take(i + 1) == all.take(i as int).push(all[i as int]));
        i += 1;
    }
    assert(all.take(i as int) == all);
    join_strings(&names, ", ")
}

/// The error for a request that no workspace could serve.
pub open spec fn access_error(
    subject: Seq<char>,
    request_label: Seq<char>,
    requested_value: Seq<char>,
    workspaces: Seq<Seq<u8>>,
    errors: Seq<Seq<char>>,
) -> Seq<char> {
    let message = subject + " is not accessible from any configured workspace ("@ + request_label
        + ": "@ + requested_value + ", workspaces: ["@ + formatted_workspaces(workspaces) + "])"@;
    if errors.len() == 0 {
        message
    } else {
        message + "; errors: "@ + text::joined(errors, "; "@)
    }
}

/// The error for a request that no workspace could serve, with the errors that the
/// workspaces gave.
pub fn workspace_access_error(
    subject: &str,
    request_label: &str,
    requested_value: &str,
    workspaces: &[PosixPath],
    errors: &Vec<String>,
) -> (error: String)
    ensures
        error@ == access_error(
            subject@,
            request_label@,
            requested_value@,
            path::path_bytes(workspaces@),
            text::texts(errors@),
        ),
{
    let mut error = subject.to_string();
    error.append(" is not accessible from any configured workspace (");
    error.append(request_label);
    error.append(": ");
    error.append(requested_value);
    error.append(", workspaces: [");
    error.append(format_workspaces(workspaces).as_str());
    error.append("])");
    if errors.len() > 0 {
        error.append("; errors: ");
        error.append(join_strings(errors, "; ").as_str());
    }
    error
}

/// The error for a resolved path that lies outside the workspace.
pub open spec fn outside_error(resolved_workspace: Seq<u8>, resolved_path: Seq<u8>) -> Seq<char> {
    "Access to paths outside the workspace is not allowed (resolved_workspace: "@
        + text::as_text(resolved_workspace) + ", resolved_path: "@ + text::as_text(
        resolved_path,
    ) + ")"@
}

/// Accepts a resolved path that lies in the resolved workspace.
pub fn ensure_path_in_workspace(
    resolved_workspace: &PosixPath,
    resolved_path: &PosixPath,
) -> (result: Result<(), String>)
    ensures
        result is Ok <==> path::starts_with(resolved_path@, resolved_workspace@),
        result matches Err(error) ==> error@ == outside_error(resolved_workspace@, resolved_path@),
{
    if !resolved_path.starts_with(resolved_workspace) {
        let mut error =
            "Access to paths outside the workspace is not allowed (resolved_workspace: ".to_string();
        error.append(resolved_workspace.display().as_str());
        error.append(", resolved_path: ");
        error.append(resolved_path.display().as_str());
        error.append(")");
        return Err(error);
    }
    Ok(())
}

/// True when the requested path contains a parent directory traversal.
pub fn path_contains_parent_reference(path: &PosixPath) -> (found: bool)
    ensures
        found == path::contains_parent_reference(path@),
{
    path.contains_parent_reference()
}

/// True when the path, as written, lies in the workspace, as written or resolved.
pub open spec fn in_namespace(
    workspace: Seq<u8>,
    resolved_workspace: Seq<u8>,
    requested_path: Seq<u8>,
) -> bool {
    path::starts_with(requested_path, workspace) || path::starts_with(
        requested_path,
        resolved_workspace,
    )
}

/// The error for a path that, as written, lies outside the workspace.
pub open spec fn outside_namespace_error(
    workspace: Seq<u8>,
    resolved_workspace: Seq<u8>,
    requested_path: Seq<u8>,
) -> Seq<char> {
    "Access to paths outside the workspace is not allowed (workspace: "@ + text::as_text(
        workspace,
    ) + ", resolved_workspace: "@ + text::as_text(resolved_workspace) + ", requested_path: "@
        + text::as_text(requested_path) + ")"@
}

/// Accepts a path that stays within the workspace namespace before symlinks are
/// followed.
pub fn ensure_path_in_workspace_namespace(
    workspace: &PosixPath,
    resolved_workspace: &PosixPath,
    requested_path: &PosixPath,
) -> (result: Result<(), String>)
    ensures
        result is Ok <==> in_namespace(workspace@, resolved_workspace@, requested_path@),
        result matches Err(error) ==> error@ == outside_namespace_error(
            workspace@,
            resolved_workspace@,
            requested_path@,
        ),
{
    if requested_path.starts_with(workspace) || requested_path.starts_with(resolved_workspace) {
        return Ok(());
    }
    let mut error = "Access to paths outside the workspace is not allowed (workspace: ".to_string();
    error.append(workspace.display().as_str());
    error.append(", resolved_workspace: ");
    error.append(resolved_workspace.display().as_str());
    error.append(", requested_path: ");
    error.append(requested_path.display().as_str());
    error.append(")");
    Err(error)
}

/// The text with `/` for every `separator`.
pub open spec fn with_slashes(text: Seq<char>, separator: char) -> Seq<char> {
    text.map_values(
        |ch: char|
            if ch == separator {
                '/'
            } else {
                ch
            },
    )
}

/// The text, or `.` where it is empty.
pub open spec fn text_or_dot(text: Seq<char>) -> Seq<char> {
    if text.len() == 0 {
        "."@
    } else {
        text
    }
}

/// The path as text, with `/` for the system's main separator, and `.` for the empty path.
pub fn normalize_relative_path(path: &PosixPath, main_separator: char) -> (value: String)
    ensures
        value@ == text_or_dot(with_slashes(text::as_text(path@), main_separator)),
{
    let shown = path.display();
    let chars = chars_of(shown.as_str());
    let ghost all = with_slashes(shown@, main_separator);
    let mut value = String::new();
    let mut i: usize = 0;
    while i < chars.len()
        invariant
            i <= chars.len(),
            chars@ == shown@,
            all == with_slashes(shown@, main_separator),
            value@ == all.take(i as int),
        decreases chars.len() - i,
    {
        value.push(
            if chars[i] == main_separator {
                '/'
            } else {
                chars[i]
            },
        );
        assert(value@ == all.take(i + 1));
        i += 1;
    }
    assert(all.take(i as int) == all);
    if value.as_str().is_empty() {
        ".".to_string()
    } else {
        value
    }
}

/// The names of the workspaces stand in order with a comma and a space between them, and
/// `<none>` stands for no workspace.
pub proof fn law_formatted_workspaces(workspaces: Seq<Seq<u8>>, workspace: Seq<u8>)
    ensures
        formatted_workspaces(Seq::empty()) == "<none>"@,
        formatted_workspaces(seq![workspace]) == text::as_text(workspace),
        workspaces.len() > 0 ==> formatted_workspaces(workspaces.push(workspace))
            == formatted_workspaces(workspaces) + ", "@ + text::as_text(workspace),
{
    assert(displayed(seq![workspace])[0] == text::as_text(workspace));
    if workspaces.len() > 0 {
        let more = workspaces.push(workspace);
        assert(displayed(more).drop_last() == displayed(workspaces));
        assert(displayed(more).last() == text::as_text(workspace));
    }
}

/// The error of a request that no workspace could serve names what was requested and all
/// workspaces. The errors of the workspaces follow in order, one behind the other.
pub proof fn law_access_error(
    subject: Seq<char>,
    request_label: Seq<char>,
    requested_value: Seq<char>,
    workspaces: Seq<Seq<u8>>,
    errors: Seq<Seq<char>>,
    error: Seq<char>,
)
    ensures
        ({
            let plain = access_error(
                subject,
                request_label,
                requested_value,
                workspaces,
                Seq::empty(),
            );
            &&& plain == subject + " is not accessible from any configured workspace ("@
                + request_label + ": "@ + requested_value + ", workspaces: ["@
                + formatted_workspaces(workspaces) + "])"@
            &&& access_error(subject, request_label, requested_value, workspaces, seq![error])
                == plain + "; errors: "@ + error
            &&& errors.len() > 0 ==> access_error(
                subject,
                request_label,
                requested_value,
                workspaces,
                errors.push(error),
            ) == access_error(subject, request_label, requested_value, workspaces, errors) + "; "@
                + error
        }),
{
    if errors.len() > 0 {
        assert(errors.push(error).drop_last() == errors);
        let plain = access_error(
            subject,
            request_label,
            requested_value,
            workspaces,
            Seq::empty(),
        );
        let listed = text::joined(errors, "; "@);
        assert(plain + "; errors: "@ + (listed + "; "@ + error) == plain + "; errors: "@ + listed
            + "; "@ + error);
    }
}

/// Only the separators of a path change when it is written with `/`, and only the empty
/// path is written as `.`.
pub proof fn law_written_with_slashes(text: Seq<char>, separator: char)
    ensures
        with_slashes(text, separator).len() == text.len(),
        forall|i: int|
            0 <= i < text.len() ==> #[trigger] with_slashes(text, separator)[i] == (if text[i]
                == separator {
                '/'
            } else {
                text[i]
            }),
        text.len() > 0 ==> text_or_dot(text) == text,
        text.len() == 0 ==> text_or_dot(text) == "."@,
{
}

/// No path of the list is empty, and no two have the same components.
pub open spec fn distinct_workspaces(workspaces: Seq<Seq<u8>>) -> bool {
    &&& forall|i: int| 0 <= i < workspaces.len() ==> (#[trigger] workspaces[i]).len() > 0
    &&& forall|i: int, j: int|
        0 <= i < j < workspaces.len() ==> !path::same_path(
            #[trigger] workspaces[i],
            #[trigger] workspaces[j],
        )
}

/// A path is added at the end of the list, unless it is empty or one of the list has its
/// components already, and nothing else changes.
pub proof fn law_one_workspace(workspaces: Seq<Seq<u8>>, workspace: Seq<u8>)
    ensures
        ({
            let known = exists|i: int|
                0 <= i < workspaces.len() && path::components(#[trigger] workspaces[i])
                    == path::components(workspace);
            &&& workspace.len() == 0 || known ==> with_workspace(workspaces, workspace)
                == workspaces
            &&& workspace.len() > 0 && !known ==> with_workspace(workspaces, workspace)
                == workspaces.push(workspace)
        }),
{
    if exists|i: int|
        0 <= i < workspaces.len() && path::components(#[trigger] workspaces[i])
            == path::components(workspace) {
        let i = choose|i: int|
            0 <= i < workspaces.len() && path::components(#[trigger] workspaces[i])
                == path::components(workspace);
        assert(path::same_path(workspaces[i], workspace));
    }
    if lists(workspaces, workspace) {
        let i = choose|i: int|
            0 <= i < workspaces.len() && path::same_path(#[trigger] workspaces[i], workspace);
        assert(path::components(workspaces[i]) == path::components(workspace));
    }
}

/// Adding workspaces keeps the list free of empty paths and of repetitions.
pub proof fn law_workspaces_stay_distinct(workspaces: Seq<Seq<u8>>, more: Seq<Seq<u8>>)
    requires
        distinct_workspaces(workspaces),
    ensures
        distinct_workspaces(with_workspaces(workspaces, more)),
    decreases more.len(),
{
    if more.len() > 0 {
        law_workspaces_stay_distinct(workspaces, more.drop_last());
    }
}

/// Workspaces that are listed keep their places when others are added: those of a
/// request stand before the defaults.
pub proof fn law_listed_workspaces_keep_their_places(
    workspaces: Seq<Seq<u8>>,
    more: Seq<Seq<u8>>,
)
    ensures
        workspaces.is_prefix_of(with_workspaces(workspaces, more)),
    decreases more.len(),
{
    if more.len() > 0 {
        law_listed_workspaces_keep_their_places(workspaces, more.drop_last());
        let before = with_workspaces(workspaces, more.drop_last());
        let after = with_workspaces(workspaces, more);
        assert(workspaces == before.subrange(0, workspaces.len() as int));
        assert(workspaces == after.subrange(0, workspaces.len() as int));
    } else {
        assert(workspaces == workspaces.subrange(0, workspaces.len() as int));
    }
}

/// Every path that is added and not empty is listed afterwards, and every path of the
/// list was listed before or has been added.
pub proof fn law_added_workspaces_are_listed(workspaces: Seq<Seq<u8>>, more: Seq<Seq<u8>>)
    ensures
        forall|i: int|
            0 <= i < more.len() && (#[trigger] more[i]).len() > 0 ==> lists(
                with_workspaces(workspaces, more),
                more[i],
            ),
        forall|i: int|
            0 <= i < with_workspaces(workspaces, more).len() ==> workspaces.contains(
                #[trigger] with_workspaces(workspaces, more)[i],
            ) || more.contains(with_workspaces(workspaces, more)[i]),
    decreases more.len(),
{
    let after = with_workspaces(workspaces, more);
    if more.len() > 0 {
        let shorter = more.drop_last();
        law_added_workspaces_are_listed(workspaces, shorter);
        let before = with_workspaces(workspaces, shorter);
        assert forall|i: int| 0 <= i < more.len() && (#[trigger] more[i]).len() > 0 implies lists(
            after,
            more[i],
        ) by {
            if i < shorter.len() {
                assert(shorter[i] == more[i]);
                assert(lists(before, more[i]));
                let k = choose|k: int|
                    0 <= k < before.len() && path::same_path(#[trigger] before[k], more[i]);
                assert(after[k] == before[k]);
            } else if !lists(before, more[i]) {
                assert(path::same_path(after[before.len() as int], more[i]));
            }
        }
        assert forall|i: int| 0 <= i < after.len() implies workspaces.contains(#[trigger] after[i])
            || more.contains(after[i]) by {
            if i < before.len() {
                assert(after[i] == before[i]);
                if shorter.contains(before[i]) {
                    let k = choose|k: int| 0 <= k < shorter.len() && shorter[k] == before[i];
                    assert(more[k] == after[i]);
                }
            } else {
                assert(after[i] == more[more.len() - 1]);
            }
        }
    }
}

/// Adding one list after another is adding both at once: the workspaces of a request are
/// those under its first key, its second key and the defaults, taken as one list.
pub proof fn law_lists_are_added_in_turn(
    workspaces: Seq<Seq<u8>>,
    first: Seq<Seq<u8>>,
    second: Seq<Seq<u8>>,
)
    ensures
        with_workspaces(with_workspaces(workspaces, first), second) == with_workspaces(
            workspaces,
            first + second,
        ),
    decreases second.len(),
{
    if second.len() == 0 {
        assert(first + second == first);
    } else {
        law_lists_are_added_in_turn(workspaces, first, second.drop_last());
        assert((first + second).drop_last() == first + second.drop_last());
    }
}

/// The workspaces of a request are the normalized form of all that are named, in order.
pub proof fn law_merging_is_normalizing(
    workspace: Seq<Seq<u8>>,
    workspaces: Seq<Seq<u8>>,
    defaults: Seq<Seq<u8>>,
)
    ensures
        merged_workspaces(workspace, workspaces, defaults) == with_workspaces(
            Seq::empty(),
            workspace + workspaces + defaults,
        ),
{
    law_lists_are_added_in_turn(Seq::empty(), workspace, workspaces);
    law_lists_are_added_in_turn(Seq::empty(), workspace + workspaces, defaults);
}

/// True when the path at `at` is the first of the list with its components.
pub open spec fn first_occurrence(paths: Seq<Seq<u8>>, at: int) -> bool {
    &&& 0 <= at < paths.len()
    &&& forall|i: int| 0 <= i < at ==> !path::same_path(#[trigger] paths[i], paths[at])
}

/// True when `places` are the places of the items in the list, in order, each the first of
/// its components.
pub open spec fn stand_at(items: Seq<Seq<u8>>, paths: Seq<Seq<u8>>, places: Seq<int>) -> bool {
    &&& places.len() == items.len()
    &&& forall|i: int|
        0 <= i < items.len() ==> first_occurrence(paths, #[trigger] places[i]) && paths[places[i]]
            == items[i]
    &&& forall|i: int, j: int|
        0 <= i < j < places.len() ==> #[trigger] places[i] < #[trigger] places[j]
}

/// A normalized list keeps, of every path that is not empty, the first that was named with
/// its components, in the order in which they were named.
pub proof fn law_first_occurrences_keep_their_order(paths: Seq<Seq<u8>>)
    ensures
        exists|places: Seq<int>| #[trigger]
            stand_at(with_workspaces(Seq::empty(), paths), paths, places),
        forall|at: int| #[trigger]
            first_occurrence(paths, at) && paths[at].len() > 0 ==> with_workspaces(
                Seq::empty(),
                paths,
            ).contains(paths[at]),
    decreases paths.len(),
{
    let normalized = with_workspaces(Seq::empty(), paths);
    if paths.len() == 0 {
        assert(stand_at(normalized, paths, Seq::empty()));
    } else {
        let shorter = paths.drop_last();
        let last = paths.len() - 1;
        law_first_occurrences_keep_their_order(shorter);
        law_added_workspaces_are_listed(Seq::empty(), shorter);
        let before = with_workspaces(Seq::empty(), shorter);
        let places = choose|places: Seq<int>| #[trigger] stand_at(before, shorter, places);
        assert forall|at: int| first_occurrence(shorter, at) implies first_occurrence(
            paths,
            at,
        ) by {
            assert forall|i: int| 0 <= i < at implies !path::same_path(
                #[trigger] paths[i],
                paths[at],
            ) by {
                assert(shorter[i] == paths[i]);
            }
        }
        assert forall|i: int| 0 <= i < before.len() implies first_occurrence(
            paths,
            #[trigger] places[i],
        ) && paths[places[i]] == before[i] by {
            assert(first_occurrence(shorter, places[i]));
        }
        if paths[last].len() > 0 && !lists(before, paths[last]) {
            assert forall|i: int| 0 <= i < last implies !path::same_path(
                #[trigger] paths[i],
                paths[last],
            ) by {
                assert(shorter[i] == paths[i]);
                if path::same_path(paths[i], paths[last]) {
                    path::law_only_the_empty_path_has_no_components(paths[i]);
                    path::law_only_the_empty_path_has_no_components(paths[last]);
                    assert(lists(before, shorter[i]));
                    let k = choose|k: int|
                        0 <= k < before.len() && path::same_path(#[trigger] before[k], shorter[i]);
                    assert(path::same_path(before[k], paths[last]));
                }
            }
            let more = places.push(last);
            assert(stand_at(normalized, paths, more)) by {
                assert forall|i: int| 0 <= i < normalized.len() implies first_occurrence(
                    paths,
                    #[trigger] more[i],
                ) && paths[more[i]] == normalized[i] by {
                    if i < before.len() {
                        assert(more[i] == places[i]);
                    }
                }
                assert forall|i: int, j: int| 0 <= i < j < more.len() implies #[trigger] more[i]
                    < #[trigger] more[j] by {
                    assert(first_occurrence(shorter, places[i]));
                }
            }
        } else {
            assert(stand_at(normalized, paths, places));
        }
        assert forall|at: int| #[trigger]
            first_occurrence(paths, at) && paths[at].len() > 0 implies normalized.contains(
            paths[at],
        ) by {
            if at < last {
                assert(shorter[at] == paths[at]);
                assert forall|i: int| 0 <= i < at implies !path::same_path(
                    #[trigger] shorter[i],
                    shorter[at],
                ) by {
                    assert(shorter[i] == paths[i]);
                }
                assert(first_occurrence(shorter, at));
                let k = choose|k: int| 0 <= k < before.len() && before[k] == paths[at];
                assert(normalized[k] == paths[at]);
            } else {
                if lists(before, paths[last]) {
                    let k = choose|k: int|
                        0 <= k < before.len() && path::same_path(
                            #[trigger] before[k],
                            paths[last],
                        );
                    assert(first_occurrence(shorter, places[k]));
                    assert(paths[places[k]] == before[k]);
                }
                assert(normalized[normalized.len() - 1] == paths[at]);
            }
        }
    }
}

/// Adding only what is listed already changes nothing.
pub proof fn law_adding_again_changes_nothing(workspaces: Seq<Seq<u8>>, more: Seq<Seq<u8>>)
    requires
        forall|i: int|
            0 <= i < more.len() && (#[trigger] more[i]).len() > 0 ==> lists(workspaces, more[i]),
    ensures
        with_workspaces(workspaces, more) == workspaces,
    decreases more.len(),
{
    if more.len() > 0 {
        let shorter = more.drop_last();
        assert forall|i: int| 0 <= i < shorter.len() && (#[trigger] shorter[i]).len() > 0 implies lists(
            workspaces,
            shorter[i],
        ) by {
            assert(shorter[i] == more[i]);
        }
        law_adding_again_changes_nothing(workspaces, shorter);
        assert(more[more.len() - 1] == more.last());
    }
}

/// Normalizing a normalized list changes nothing.
pub proof fn law_normalizing_twice(workspaces: Seq<Seq<u8>>)
    ensures
        ({
            let normalized = with_workspaces(Seq::empty(), workspaces);
            with_workspaces(Seq::empty(), normalized) == normalized
        }),
{
    let normalized = with_workspaces(Seq::empty(), workspaces);
    law_workspaces_stay_distinct(Seq::empty(), workspaces);
    lemma_distinct_is_normal(normalized);
}

proof fn lemma_distinct_is_normal(workspaces: Seq<Seq<u8>>)
    requires
        distinct_workspaces(workspaces),
    ensures
        with_workspaces(Seq::empty(), workspaces) == workspaces,
    decreases workspaces.len(),
{
    if workspaces.len() > 0 {
        let shorter = workspaces.drop_last();
        assert(distinct_workspaces(shorter)) by {
            assert forall|i: int| 0 <= i < shorter.len() implies (#[trigger] shorter[i]).len()
                > 0 by {
                assert(shorter[i] == workspaces[i]);
            }
        }
        lemma_distinct_is_normal(shorter);
        let last = workspaces.len() - 1;
        assert(workspaces[last].len() > 0);
        if lists(shorter, workspaces[last]) {
            let i = choose|i: int|
                0 <= i < shorter.len() && path::same_path(
                    #[trigger] shorter[i],
                    workspaces[last],
                );
            assert(path::same_path(workspaces[i], workspaces[last]));
        }
        assert(shorter.push(workspaces[last]) == workspaces);
    }
}

/// A relative path, taken from a workspace, always lies in that workspace as written.
pub proof fn law_relative_path_is_in_namespace(
    workspace: Seq<u8>,
    resolved_workspace: Seq<u8>,
    user_path: Seq<u8>,
)
    requires
        !path::is_absolute(user_path),
    ensures
        in_namespace(workspace, resolved_workspace, path::join(workspace, user_path)),
{
    path::law_join_stays_under(workspace, user_path);
}

} // verus!
