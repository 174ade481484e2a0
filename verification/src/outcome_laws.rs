//! What a request to read or to write comes to, said of the file system alone.
use crate::path;
use crate::resolve;
use crate::resolve::{FsReply, FsRequest, ReadModel, ReadResolution, Step};
use crate::resolve_laws;
use crate::resolve_laws::FileTree;
use crate::resolve_write;
use crate::resolve_write::{
    AncestorModel, AncestorSearch, AncestorSearchModel, WriteModel, WriteResolution,
};
use crate::search;
use crate::search::{ResolvedFilePath, ResolvedModel};
use crate::text;
use crate::workspace;
use vstd::prelude::*;
use vstd::utf8::*;

verus! {

/// The requested path, taken from a workspace.
pub open spec fn requested(workspace: Seq<u8>, user_path: Seq<char>) -> Seq<u8> {
    path::join(workspace, encode_utf8(user_path))
}

proof fn lemma_ends(head: Seq<char>, tail: Seq<char>)
    ensures
        tail.is_suffix_of(head + tail),
{
    assert(tail == (head + tail).subrange(head.len() as int, (head + tail).len() as int));
}

/// A path may be read exactly where the workspace and the requested path have canonical
/// forms and the path is reached from the workspace: as written where no component is
/// `..`, and with its canonical form where one is. What is read is that canonical form.
pub proof fn law_what_may_be_read(
    tree: FileTree,
    workspace: Seq<u8>,
    user_path: Seq<char>,
    target: Seq<u8>,
)
    ensures
        ({
            let candidate = requested(workspace, user_path);
            let climbs = path::components(encode_utf8(user_path)).contains(seq![46u8, 46u8]);
            resolve_laws::read_outcome(tree, workspace, user_path) == Ok::<Seq<u8>, Seq<char>>(
                target,
            ) <==> {
                &&& (tree.canonical)(workspace) matches Ok(resolved)
                &&& (tree.canonical)(candidate) == Ok::<Seq<u8>, Seq<char>>(target)
                &&& climbs ==> path::starts_with(target, resolved)
                &&& !climbs ==> path::starts_with(candidate, workspace) || path::starts_with(
                    candidate,
                    resolved,
                )
            }
        }),
{
    crate::path_laws::law_kinds_of_paths(encode_utf8(user_path));
}

/// Where a canonical form cannot be had, the refusal ends with the reason.
pub proof fn law_refused_read_tells_why(
    tree: FileTree,
    workspace: Seq<u8>,
    user_path: Seq<char>,
    reason: Seq<char>,
)
    ensures
        (tree.canonical)(workspace) == Err::<Seq<u8>, Seq<char>>(reason) ==> (
        resolve_laws::read_outcome(tree, workspace, user_path) matches Err(error)
            && reason.is_suffix_of(error)),
        (tree.canonical)(workspace) is Ok && path::starts_with(
            requested(workspace, user_path),
            workspace,
        ) && (tree.canonical)(requested(workspace, user_path)) == Err::<Seq<u8>, Seq<char>>(reason)
            ==> (resolve_laws::read_outcome(tree, workspace, user_path) matches Err(error)
            && reason.is_suffix_of(error)),
{
    let candidate = requested(workspace, user_path);
    lemma_ends(
        "Failed to resolve workspace path (workspace: "@ + text::as_text(workspace) + "): "@,
        reason,
    );
    lemma_ends(
        "Failed to resolve file path (workspace: "@ + text::as_text(workspace)
            + ", requested_path: "@ + user_path + ", candidate_path: "@ + text::as_text(candidate)
            + "): "@,
        reason,
    );
}

/// A path that exists may be written exactly where it is no symlink and its canonical form
/// lies in that of the workspace. What is written is that canonical form.
pub proof fn law_what_existing_path_may_be_written(
    tree: FileTree,
    workspace: Seq<u8>,
    user_path: Seq<char>,
    is_symlink: bool,
    target: Seq<u8>,
)
    requires
        (tree.entry)(requested(workspace, user_path)) == Ok::<Option<bool>, Seq<char>>(
            Some(is_symlink),
        ),
    ensures
        resolve_laws::write_outcome(tree, workspace, user_path) == Ok::<Seq<u8>, Seq<char>>(target)
            <==> {
            &&& !is_symlink
            &&& (tree.canonical)(workspace) matches Ok(resolved)
            &&& (tree.canonical)(requested(workspace, user_path)) == Ok::<Seq<u8>, Seq<char>>(
                target,
            )
            &&& path::starts_with(target, resolved)
        },
{
}

proof fn lemma_nearest_is_found(
    tree: FileTree,
    path: Seq<u8>,
    ancestor: AncestorModel,
    steps: nat,
)
    requires
        resolve_laws::nearest(tree, path, ancestor),
        steps <= ancestor.missing.len(),
        resolve_laws::splits(
            path,
            resolve_laws::above(path, steps),
            ancestor.missing.take(steps as int),
        ),
    ensures
        resolve_laws::nearest_ancestor(
            tree,
            path,
            resolve_laws::above(path, steps),
            ancestor.missing.take(steps as int),
        ) == Ok::<AncestorModel, Seq<char>>(ancestor),
    decreases ancestor.missing.len() - steps,
{
    let current = resolve_laws::above(path, steps);
    let missing = ancestor.missing.take(steps as int);
    if steps == ancestor.missing.len() {
        assert(missing == ancestor.missing);
    } else {
        let all = path::components(path);
        let here = path::components(current);
        let count = ancestor.missing.len();
        let name = ancestor.missing[steps as int];
        let base = path::components(ancestor.path);
        assert(missing.reverse().len() == steps);
        assert(ancestor.missing.reverse().len() == count);
        assert(all == base + ancestor.missing.reverse());
        assert(all == here + missing.reverse());
        assert(all.len() == here.len() + steps);
        assert(all.len() == base.len() + count);
        assert(all[here.len() - 1] == here[here.len() - 1]);
        assert(here.len() - 1 - base.len() == count - steps - 1);
        assert(all[here.len() - 1] == ancestor.missing.reverse()[here.len() - 1 - base.len()]);
        assert(here.last() == name);
        assert(path::is_name(name));
        path::law_named_path_has_parent(current);
        let search = AncestorSearch { path, current, missing };
        resolve_laws::law_ancestor_search_loses_nothing(search, Ok(None));
        assert(missing.push(name) == ancestor.missing.take(steps + 1int));
        assert(resolve_laws::above(path, steps + 1) == path::parent(current)->0);
        lemma_nearest_is_found(tree, path, ancestor, steps + 1);
    }
}

/// Where there is a nearest existing ancestor it is found, and there is only one.
pub proof fn law_nearest_ancestor_is_found(
    tree: FileTree,
    path: Seq<u8>,
    ancestor: AncestorModel,
)
    ensures
        resolve_laws::nearest_ancestor(tree, path, path, Seq::empty()) == Ok::<
            AncestorModel,
            Seq<char>,
        >(ancestor) <==> resolve_laws::nearest(tree, path, ancestor),
{
    resolve_laws::law_nearest_ancestor(tree, path);
    resolve_laws::law_ancestor_search_loses_nothing(AncestorSearch::start(path), Ok(None));
    if resolve_laws::nearest(tree, path, ancestor) {
        assert(ancestor.missing.take(0) == Seq::<Seq<u8>>::empty());
        assert(resolve_laws::above(path, 0) == path);
        lemma_nearest_is_found(tree, path, ancestor, 0);
    }
}

/// What a search for the nearest existing ancestor comes to.
pub open spec fn run_ancestor(tree: FileTree, search: AncestorSearchModel) -> Result<
    AncestorModel,
    Seq<char>,
>
    decreases path::components(search.current).len(),
{
    let entry = resolve::entry_form(tree.answer(search.asks()));
    match search.after(entry) {
        Step::Continue(next) => {
            proof {
                resolve_laws::law_ancestor_search_ends(search, entry);
            }
            run_ancestor(tree, next)
        },
        Step::Found(ancestor) => Ok(ancestor),
        Step::Refused(error) => Err(error),
    }
}

proof fn lemma_ancestor_run(tree: FileTree, search: AncestorSearchModel)
    ensures
        run_ancestor(tree, search) == resolve_laws::nearest_ancestor(
            tree,
            search.path,
            search.current,
            search.missing,
        ),
    decreases path::components(search.current).len(),
{
    let entry = resolve::entry_form(tree.answer(search.asks()));
    assert(entry == (tree.entry)(search.current));
    resolve_laws::law_ancestor_search_ends(search, entry);
    if let Step::Continue(next) = search.after(entry) {
        lemma_ancestor_run(tree, next);
    }
}

/// A whole search for an ancestor gives the nearest one that exists.
pub proof fn law_ancestor_run(tree: FileTree, path: Seq<u8>, ancestor: AncestorModel)
    ensures
        run_ancestor(tree, AncestorSearch::start(path)) == Ok::<AncestorModel, Seq<char>>(ancestor)
            <==> resolve_laws::nearest(tree, path, ancestor),
{
    lemma_ancestor_run(tree, AncestorSearch::start(path));
    law_nearest_ancestor_is_found(tree, path, ancestor);
}

/// True when `target` has the components of `base` and below them the names, the last one
/// first.
pub open spec fn stands_below(target: Seq<u8>, base: Seq<u8>, names: Seq<Seq<u8>>) -> bool {
    &&& target == resolve_write::below(base, names)
    &&& path::components(target) == path::components(base) + names.reverse()
}

/// A path that does not exist may be written exactly where the nearest ancestor that does
/// has its canonical form in that of the workspace. What is written are the missing names
/// below that canonical form.
pub proof fn law_what_new_path_may_be_written(
    tree: FileTree,
    workspace: Seq<u8>,
    user_path: Seq<char>,
    target: Seq<u8>,
)
    requires
        (tree.entry)(requested(workspace, user_path)) == Ok::<Option<bool>, Seq<char>>(None),
    ensures
        resolve_laws::write_outcome(tree, workspace, user_path) == Ok::<Seq<u8>, Seq<char>>(target)
            <==> exists|ancestor: AncestorModel|
            {
                &&& #[trigger] resolve_laws::nearest(
                    tree,
                    requested(workspace, user_path),
                    ancestor,
                )
                &&& (tree.canonical)(workspace) matches Ok(resolved)
                &&& (tree.canonical)(ancestor.path) matches Ok(base)
                &&& path::starts_with(base, resolved)
                &&& stands_below(target, base, ancestor.missing)
            },
{
    let candidate = requested(workspace, user_path);
    resolve_laws::law_nearest_ancestor(tree, candidate);
    match resolve_laws::nearest_ancestor(tree, candidate, candidate, Seq::empty()) {
        Ok(found) => {
            assert(resolve_laws::nearest(tree, candidate, found));
            if let Ok(base) = (tree.canonical)(found.path) {
                resolve_laws::law_below_adds_components(base, found.missing);
            }
            assert forall|ancestor: AncestorModel| #[trigger]
                resolve_laws::nearest(tree, candidate, ancestor) implies ancestor == found by {
                law_nearest_ancestor_is_found(tree, candidate, ancestor);
            }
        },
        Err(_) => {
            assert forall|ancestor: AncestorModel| !#[trigger] resolve_laws::nearest(
                tree,
                candidate,
                ancestor,
            ) by {
                law_nearest_ancestor_is_found(tree, candidate, ancestor);
            }
        },
    }
}

/// Nothing is written where the workspace or the requested path cannot be looked at, and
/// the refusal ends with the reason.
pub proof fn law_refused_write_tells_why(
    tree: FileTree,
    workspace: Seq<u8>,
    user_path: Seq<char>,
    reason: Seq<char>,
)
    ensures
        (tree.canonical)(workspace) == Err::<Seq<u8>, Seq<char>>(reason) ==> (
        resolve_laws::write_outcome(tree, workspace, user_path) matches Err(error)
            && reason.is_suffix_of(error)),
        (tree.canonical)(workspace) is Ok && (tree.entry)(requested(workspace, user_path)) == Err::<
            Option<bool>,
            Seq<char>,
        >(reason) ==> (resolve_laws::write_outcome(tree, workspace, user_path) matches Err(error)
            && reason.is_suffix_of(error)),
        (tree.canonical)(workspace) is Ok && (tree.entry)(requested(workspace, user_path)) == Ok::<
            Option<bool>,
            Seq<char>,
        >(Some(false)) && (tree.canonical)(requested(workspace, user_path)) == Err::<
            Seq<u8>,
            Seq<char>,
        >(reason) ==> (resolve_laws::write_outcome(tree, workspace, user_path) matches Err(error)
            && reason.is_suffix_of(error)),
{
    let candidate = requested(workspace, user_path);
    let shown = text::as_text(workspace);
    lemma_ends("Failed to resolve workspace path (workspace: "@ + shown + "): "@, reason);
    lemma_ends(
        "Failed to inspect file path (workspace: "@ + shown + ", path: "@ + text::as_text(candidate)
            + "): "@,
        reason,
    );
    lemma_ends(
        "Failed to resolve file path (workspace: "@ + shown + ", requested_path: "@ + user_path
            + ", candidate_path: "@ + text::as_text(candidate) + "): "@,
        reason,
    );
}

/// What lies outside the workspace is refused, for reading as for writing, with an error
/// that says where it lies. A symlink is refused as such.
pub proof fn law_what_lies_outside_is_refused(
    tree: FileTree,
    workspace: Seq<u8>,
    user_path: Seq<char>,
    resolved: Seq<u8>,
    target: Seq<u8>,
)
    requires
        (tree.canonical)(workspace) == Ok::<Seq<u8>, Seq<char>>(resolved),
        (tree.canonical)(requested(workspace, user_path)) == Ok::<Seq<u8>, Seq<char>>(target),
    ensures
        ({
            let candidate = requested(workspace, user_path);
            let climbs = path::components(encode_utf8(user_path)).contains(seq![46u8, 46u8]);
            let read = resolve_laws::read_outcome(tree, workspace, user_path);
            let write = resolve_laws::write_outcome(tree, workspace, user_path);
            let entry = (tree.entry)(candidate);
            &&& climbs && !path::starts_with(target, resolved) ==> read == Err::<
                Seq<u8>,
                Seq<char>,
            >(workspace::outside_error(resolved, target))
            &&& !climbs && !path::starts_with(candidate, workspace) && !path::starts_with(
                candidate,
                resolved,
            ) ==> read == Err::<Seq<u8>, Seq<char>>(
                workspace::outside_namespace_error(workspace, resolved, candidate),
            )
            &&& entry == Ok::<Option<bool>, Seq<char>>(Some(false)) && !path::starts_with(
                target,
                resolved,
            ) ==> write == Err::<Seq<u8>, Seq<char>>(workspace::outside_error(resolved, target))
            &&& entry == Ok::<Option<bool>, Seq<char>>(Some(true)) ==> write == Err::<
                Seq<u8>,
                Seq<char>,
            >(resolve_write::symlink_error(workspace, candidate))
        }),
{
    crate::path_laws::law_kinds_of_paths(encode_utf8(user_path));
}

/// The error of a search speaks of the requested path, of all workspaces and of all errors.
pub proof fn law_search_error(
    workspaces: Seq<Seq<u8>>,
    user_path: Seq<char>,
    errors: Seq<Seq<char>>,
)
    ensures
        search::search_error(workspaces, user_path, errors) == workspace::access_error(
            "Path"@,
            "requested_path"@,
            user_path,
            workspaces,
            errors,
        ),
{
}

/// A search for reading comes to the first workspace from which the path may be read, and
/// to what is read from there. Where there is none, its error lists that of each
/// workspace, in order.
pub proof fn law_read_search(
    tree: FileTree,
    workspaces: Seq<Seq<u8>>,
    user_path: Seq<char>,
)
    ensures
        match resolve_laws::read_search_outcome(tree, workspaces, user_path) {
            Ok(resolved) => exists|k: int|
                {
                    &&& 0 <= k < workspaces.len()
                    &&& resolved.workspace == #[trigger] workspaces[k]
                    &&& resolve_laws::read_outcome(tree, workspaces[k], user_path) == Ok::<
                        Seq<u8>,
                        Seq<char>,
                    >(resolved.path)
                    &&& forall|j: int|
                        0 <= j < k ==> resolve_laws::read_outcome(
                            tree,
                            #[trigger] workspaces[j],
                            user_path,
                        ) is Err
                },
            Err(error) => {
                &&& forall|j: int|
                    0 <= j < workspaces.len() ==> resolve_laws::read_outcome(
                        tree,
                        #[trigger] workspaces[j],
                        user_path,
                    ) is Err
                &&& error == search::search_error(
                    workspaces,
                    user_path,
                    Seq::new(
                        workspaces.len(),
                        |j: int|
                            text::as_text(workspaces[j]) + ": "@ + resolve_laws::read_outcome(
                                tree,
                                workspaces[j],
                                user_path,
                            )->Err_0,
                    ),
                )
            },
        },
{
    let outcome = |workspace: Seq<u8>| resolve_laws::read_outcome(tree, workspace, user_path);
    resolve_laws::law_first_serving_workspace_wins(outcome, workspaces, user_path, 0, Seq::empty());
    match resolve_laws::read_search_outcome(tree, workspaces, user_path) {
        Ok(resolved) => {
            let k = choose|k: int|
                {
                    &&& 0 <= k < workspaces.len()
                    &&& resolved.workspace == #[trigger] workspaces[k]
                    &&& outcome(workspaces[k]) == Ok::<Seq<u8>, Seq<char>>(resolved.path)
                    &&& forall|j: int| 0 <= j < k ==> outcome(#[trigger] workspaces[j]) is Err
                };
            assert(resolved.workspace == workspaces[k]);
            assert forall|j: int| 0 <= j < k implies resolve_laws::read_outcome(
                tree,
                #[trigger] workspaces[j],
                user_path,
            ) is Err by {
                assert(outcome(workspaces[j]) is Err);
            }
        },
        Err(error) => {
            assert forall|j: int| 0 <= j < workspaces.len() implies resolve_laws::read_outcome(
                tree,
                #[trigger] workspaces[j],
                user_path,
            ) is Err by {
                assert(outcome(workspaces[j]) is Err);
            }
            let listed = resolve_laws::listed_errors(outcome, workspaces, 0);
            let expected = Seq::new(
                workspaces.len(),
                |j: int|
                    text::as_text(workspaces[j]) + ": "@ + resolve_laws::read_outcome(
                        tree,
                        workspaces[j],
                        user_path,
                    )->Err_0,
            );
            assert(listed == expected);
            assert(Seq::<Seq<char>>::empty() + listed == expected);
        },
    }
}

/// What a workspace alone makes of a path that is to be written.
pub open spec fn alone(
    tree: FileTree,
    workspace: Seq<u8>,
    user_path: Seq<char>,
) -> Result<ResolvedModel, Seq<char>> {
    match resolve_laws::write_outcome(tree, workspace, user_path) {
        Ok(path) => Ok(ResolvedFilePath { workspace, path }),
        Err(error) => Err(error),
    }
}

proof fn lemma_probed(
    tree: FileTree,
    workspaces: Seq<Seq<u8>>,
    user_path: Seq<char>,
    index: int,
    k: int,
)
    requires
        0 <= index <= k < workspaces.len(),
        forall|j: int|
            index <= j < k ==> (tree.entry)(requested(#[trigger] workspaces[j], user_path)) == Ok::<
                Option<bool>,
                Seq<char>,
            >(None),
        (tree.entry)(requested(workspaces[k], user_path)) != Ok::<Option<bool>, Seq<char>>(None),
    ensures
        ({
            let probed = resolve_laws::write_probed_outcome(tree, workspaces, user_path, index);
            match (tree.entry)(requested(workspaces[k], user_path)) {
                Ok(_) => probed == alone(tree, workspaces[k], user_path),
                Err(reason) => probed matches Err(error) && reason.is_suffix_of(error),
            }
        }),
    decreases k - index,
{
    if index < k {
        assert((tree.entry)(requested(workspaces[index], user_path)) == Ok::<
            Option<bool>,
            Seq<char>,
        >(None));
        lemma_probed(tree, workspaces, user_path, index + 1, k);
    } else if let Err(reason) = (tree.entry)(requested(workspaces[k], user_path)) {
        lemma_ends(
            "Failed to inspect file path (workspace: "@ + text::as_text(workspaces[k])
                + ", requested_path: "@ + user_path + ", candidate_path: "@ + text::as_text(
                requested(workspaces[k], user_path),
            ) + "): "@,
            reason,
        );
    }
}

/// A relative path that exists in a workspace, and in none before it, is written as that
/// workspace alone has it, or refused with the error of that workspace. Where it cannot be
/// looked for, the refusal ends with the reason.
pub proof fn law_existing_path_is_written_where_it_is(
    tree: FileTree,
    workspaces: Seq<Seq<u8>>,
    user_path: Seq<char>,
    k: int,
)
    requires
        encode_utf8(user_path).len() == 0 || encode_utf8(user_path)[0] != 47u8,
        0 <= k < workspaces.len(),
        forall|j: int|
            0 <= j < k ==> (tree.entry)(requested(#[trigger] workspaces[j], user_path)) == Ok::<
                Option<bool>,
                Seq<char>,
            >(None),
    ensures
        (tree.entry)(requested(workspaces[k], user_path)) matches Ok(Some(_)) ==> (
        resolve_laws::write_search_outcome(tree, workspaces, user_path) == match
            resolve_laws::write_outcome(tree, workspaces[k], user_path) {
            Ok(path) => Ok(ResolvedFilePath { workspace: workspaces[k], path }),
            Err(error) => Err(error),
        }),
        (tree.entry)(requested(workspaces[k], user_path)) matches Err(reason) ==> (
        resolve_laws::write_search_outcome(tree, workspaces, user_path) matches Err(error)
            && reason.is_suffix_of(error)),
{
    if (tree.entry)(requested(workspaces[k], user_path)) != Ok::<Option<bool>, Seq<char>>(None) {
        lemma_probed(tree, workspaces, user_path, 0, k);
    }
}

proof fn lemma_probed_nowhere(
    tree: FileTree,
    workspaces: Seq<Seq<u8>>,
    user_path: Seq<char>,
    index: int,
)
    requires
        0 <= index <= workspaces.len(),
        forall|j: int|
            0 <= j < workspaces.len() ==> (tree.entry)(
                requested(#[trigger] workspaces[j], user_path),
            ) == Ok::<Option<bool>, Seq<char>>(None),
    ensures
        resolve_laws::write_probed_outcome(tree, workspaces, user_path, index)
            == resolve_laws::write_tried_outcome(tree, workspaces, user_path, 0, Seq::empty()),
    decreases workspaces.len() - index,
{
    if index < workspaces.len() {
        assert((tree.entry)(requested(workspaces[index], user_path)) == Ok::<
            Option<bool>,
            Seq<char>,
        >(None));
        lemma_probed_nowhere(tree, workspaces, user_path, index + 1);
    }
}

/// An absolute path, and a relative one that exists in no workspace, is written in the
/// first workspace that accepts it. Where none does, the error lists that of each
/// workspace, in order.
pub proof fn law_write_search(
    tree: FileTree,
    workspaces: Seq<Seq<u8>>,
    user_path: Seq<char>,
)
    requires
        (encode_utf8(user_path).len() > 0 && encode_utf8(user_path)[0] == 47u8) || forall|j: int|
            0 <= j < workspaces.len() ==> (tree.entry)(
                requested(#[trigger] workspaces[j], user_path),
            ) == Ok::<Option<bool>, Seq<char>>(None),
    ensures
        match resolve_laws::write_search_outcome(tree, workspaces, user_path) {
            Ok(resolved) => exists|k: int|
                {
                    &&& 0 <= k < workspaces.len()
                    &&& resolved.workspace == #[trigger] workspaces[k]
                    &&& resolve_laws::write_outcome(tree, workspaces[k], user_path) == Ok::<
                        Seq<u8>,
                        Seq<char>,
                    >(resolved.path)
                    &&& forall|j: int|
                        0 <= j < k ==> resolve_laws::write_outcome(
                            tree,
                            #[trigger] workspaces[j],
                            user_path,
                        ) is Err
                },
            Err(error) => {
                &&& forall|j: int|
                    0 <= j < workspaces.len() ==> resolve_laws::write_outcome(
                        tree,
                        #[trigger] workspaces[j],
                        user_path,
                    ) is Err
                &&& error == search::search_error(
                    workspaces,
                    user_path,
                    Seq::new(
                        workspaces.len(),
                        |j: int|
                            text::as_text(workspaces[j]) + ": "@ + resolve_laws::write_outcome(
                                tree,
                                workspaces[j],
                                user_path,
                            )->Err_0,
                    ),
                )
            },
        },
{
    let outcome = |workspace: Seq<u8>| resolve_laws::write_outcome(tree, workspace, user_path);
    if !(encode_utf8(user_path).len() > 0 && encode_utf8(user_path)[0] == 47u8) {
        lemma_probed_nowhere(tree, workspaces, user_path, 0);
    }
    resolve_laws::law_first_serving_workspace_wins(outcome, workspaces, user_path, 0, Seq::empty());
    match resolve_laws::write_search_outcome(tree, workspaces, user_path) {
        Ok(resolved) => {
            let k = choose|k: int|
                {
                    &&& 0 <= k < workspaces.len()
                    &&& resolved.workspace == #[trigger] workspaces[k]
                    &&& outcome(workspaces[k]) == Ok::<Seq<u8>, Seq<char>>(resolved.path)
                    &&& forall|j: int| 0 <= j < k ==> outcome(#[trigger] workspaces[j]) is Err
                };
            assert(resolved.workspace == workspaces[k]);
            assert forall|j: int| 0 <= j < k implies resolve_laws::write_outcome(
                tree,
                #[trigger] workspaces[j],
                user_path,
            ) is Err by {
                assert(outcome(workspaces[j]) is Err);
            }
        },
        Err(error) => {
            assert forall|j: int| 0 <= j < workspaces.len() implies resolve_laws::write_outcome(
                tree,
                #[trigger] workspaces[j],
                user_path,
            ) is Err by {
                assert(outcome(workspaces[j]) is Err);
            }
            let listed = resolve_laws::listed_errors(outcome, workspaces, 0);
            let expected = Seq::new(
                workspaces.len(),
                |j: int|
                    text::as_text(workspaces[j]) + ": "@ + resolve_laws::write_outcome(
                        tree,
                        workspaces[j],
                        user_path,
                    )->Err_0,
            );
            assert(listed == expected);
            assert(Seq::<Seq<char>>::empty() + listed == expected);
        },
    }
}

/// A resolution for reading first asks for the workspace and after that for the requested
/// path, and gives the canonical form that it is told where the path is reached from the
/// workspace.
pub proof fn law_questions_of_a_read(
    workspace: Seq<u8>,
    user_path: Seq<char>,
    resolved: Seq<u8>,
    target: Seq<u8>,
)
    requires
        path::starts_with(requested(workspace, user_path), workspace),
        path::starts_with(target, resolved),
    ensures
        ({
            let first = ReadResolution::start(workspace, user_path);
            &&& first.asks() == FsRequest::Canonicalize(workspace)
            &&& first.after(Ok(resolved)) matches Step::Continue(second)
            &&& second.asks() == FsRequest::Canonicalize(requested(workspace, user_path))
            &&& second.after(Ok(target)) == Step::<ReadModel, Seq<u8>, Seq<char>>::Found(target)
        }),
{
}

/// A resolution for writing asks for the workspace, and looks at the requested path. One
/// that exists is asked for and given as it is told, where it lies in the workspace.
pub proof fn law_questions_of_a_write(
    workspace: Seq<u8>,
    user_path: Seq<char>,
    resolved: Seq<u8>,
    target: Seq<u8>,
)
    requires
        path::starts_with(target, resolved),
    ensures
        ({
            let candidate = requested(workspace, user_path);
            let first = WriteResolution::start(workspace, user_path);
            &&& first.asks() == FsRequest::Canonicalize(workspace)
            &&& first.after(FsReply::Canonical(resolved)) matches Step::Continue(second)
            &&& second.asks() == FsRequest::Inspect(candidate)
            &&& second.after(FsReply::Present { is_symlink: false }) matches Step::Continue(third)
            &&& third.asks() == FsRequest::Canonicalize(candidate)
            &&& third.after(FsReply::Canonical(target)) == Step::<
                WriteModel,
                Seq<u8>,
                Seq<char>,
            >::Found(target)
        }),
{
}

} // verus!
