//! What holds of every resolution, and what a whole run comes to.
use crate::path;
use crate::resolve;
use crate::resolve::{FsReply, FsRequest, ReadModel, ReadResolution, Step};
use crate::resolve_write;
use crate::resolve_write::{
    Ancestor, AncestorModel, AncestorSearch, AncestorSearchModel, WriteModel, WritePhase,
    WriteResolution,
};
use crate::search;
use crate::search::{
    ReadSearch, ReadSearchModel, ResolvedFilePath, ResolvedModel, WriteSearch, WriteSearchModel,
    WriteSearchPhase,
};
use crate::workspace;
use vstd::prelude::*;
use vstd::utf8::*;

verus! {

/// True when every item names an entry of a directory.
pub open spec fn all_names(names: Seq<Seq<u8>>) -> bool {
    forall|i: int| 0 <= i < names.len() ==> path::is_name(#[trigger] names[i])
}

/// True when `current` is `path` without the components `missing`, which are names and
/// stand with the last one first.
pub open spec fn splits(path: Seq<u8>, current: Seq<u8>, missing: Seq<Seq<u8>>) -> bool {
    &&& all_names(missing)
    &&& path::components(path) == path::components(current) + missing.reverse()
}

/// What holds of a search for an ancestor at all times: the path that it has come to,
/// with the missing names below it, is the path that it started from.
pub open spec fn search_invariant(search: AncestorSearchModel) -> bool {
    splits(search.path, search.current, search.missing)
}

/// A search for an ancestor starts and stays within what holds of it.
pub proof fn law_ancestor_search_loses_nothing(
    search: AncestorSearchModel,
    entry: Result<Option<bool>, Seq<char>>,
)
    ensures
        search_invariant(AncestorSearch::start(search.path)),
        search_invariant(search) ==> match search.after(entry) {
            Step::Continue(next) => search_invariant(next) && next.path == search.path,
            Step::Found(ancestor) => splits(search.path, ancestor.path, ancestor.missing),
            Step::Refused(_) => true,
        },
{
    let none = Seq::<Seq<u8>>::empty();
    assert(none.reverse() == none);
    assert(path::components(search.path) + none == path::components(search.path));
    if search_invariant(search) {
        if let Step::Continue(next) = search.after(entry) {
            path::law_parent_drops_last(search.current);
            let name = path::file_name(search.current)->0;
            let all = path::components(search.current);
            assert(all == path::components(next.current).push(name));
            assert(next.missing.reverse() == seq![name] + search.missing.reverse());
            assert(path::components(next.current) + next.missing.reverse() == all
                + search.missing.reverse());
            assert forall|i: int| 0 <= i < next.missing.len() implies path::is_name(
                #[trigger] next.missing[i],
            ) by {
                if i < search.missing.len() {
                    assert(next.missing[i] == search.missing[i]);
                }
            }
        }
    }
}

/// Every missing answer brings a search for an ancestor one component up, so it ends.
pub proof fn law_ancestor_search_ends(
    search: AncestorSearchModel,
    entry: Result<Option<bool>, Seq<char>>,
)
    ensures
        search.after(entry) matches Step::Continue(next) ==> path::components(next.current).len()
            == path::components(search.current).len() - 1,
{
    path::law_parent_drops_last(search.current);
}

/// Names are joined to a path one by one, the last of the list first.
pub proof fn law_below(base: Seq<u8>, names: Seq<Seq<u8>>, name: Seq<u8>)
    ensures
        resolve_write::below(base, Seq::empty()) == base,
        resolve_write::below(base, seq![name]) == path::join(base, name),
        resolve_write::below(base, names.push(name)) == resolve_write::below(
            path::join(base, name),
            names,
        ),
{
    assert(names.push(name).drop_last() == names);
    assert(seq![name].drop_last() == Seq::<Seq<u8>>::empty());
    assert(resolve_write::below(path::join(base, name), Seq::empty()) == path::join(base, name));
}

/// Names below a path become its last components.
pub proof fn law_below_adds_components(base: Seq<u8>, names: Seq<Seq<u8>>)
    requires
        all_names(names),
    ensures
        path::components(resolve_write::below(base, names)) == path::components(base)
            + names.reverse(),
        path::starts_with(resolve_write::below(base, names), base),
    decreases names.len(),
{
    if names.len() == 0 {
        assert(path::components(base) + names.reverse() == path::components(base));
    } else {
        let name = names.last();
        let shorter = names.drop_last();
        assert(path::is_name(names[names.len() - 1]));
        path::law_join_name(base, name);
        assert forall|i: int| 0 <= i < shorter.len() implies path::is_name(
            #[trigger] shorter[i],
        ) by {
            assert(shorter[i] == names[i]);
        }
        law_below_adds_components(path::join(base, name), shorter);
        assert(names.reverse() == seq![name] + shorter.reverse());
        assert(path::components(base).push(name) + shorter.reverse() == path::components(base)
            + names.reverse());
        path::law_starts_with_transitive(
            resolve_write::below(base, names),
            path::join(base, name),
            base,
        );
    }
}

/// The resolved workspace that a resolution for writing has learned of.
pub open spec fn known_workspace(resolution: WriteModel) -> Option<Seq<u8>> {
    match resolution.phase {
        WritePhase::Workspace => None,
        WritePhase::Target { resolved_workspace } => Some(resolved_workspace),
        WritePhase::Existing { resolved_workspace } => Some(resolved_workspace),
        WritePhase::Climbing { resolved_workspace, .. } => Some(resolved_workspace),
        WritePhase::Landed { resolved_workspace, .. } => Some(resolved_workspace),
    }
}

/// What holds of a resolution for writing at all times: no component of the requested
/// path is lost on the way up.
pub open spec fn write_invariant(resolution: WriteModel) -> bool {
    match resolution.phase {
        WritePhase::Climbing { search, .. } => search.path == resolution.candidate()
            && search_invariant(search),
        WritePhase::Landed { ancestor, .. } => splits(
            resolution.candidate(),
            ancestor.path,
            ancestor.missing,
        ),
        _ => true,
    }
}

/// A resolution for writing stays within what holds of it, keeps the resolved
/// workspace that it was told first, and whatever the file system answers, ends only
/// with a path in that workspace.
pub proof fn law_write_target_lies_in_workspace(
    resolution: WriteModel,
    reply: FsReply<Seq<u8>, Seq<char>>,
)
    requires
        write_invariant(resolution),
    ensures
        match resolution.after(reply) {
            Step::Continue(next) => {
                &&& write_invariant(next)
                &&& next.workspace == resolution.workspace
                &&& next.user_path == resolution.user_path
                &&& known_workspace(next) is Some
                &&& known_workspace(resolution) is Some ==> known_workspace(next)
                    == known_workspace(resolution)
                &&& known_workspace(resolution) is None ==> reply == FsReply::<
                    Seq<u8>,
                    Seq<char>,
                >::Canonical(known_workspace(next)->0)
            },
            Step::Found(target) => known_workspace(resolution) is Some && path::starts_with(
                target,
                known_workspace(resolution)->0,
            ),
            Step::Refused(_) => true,
        },
{
    let entry = resolve::entry_form(reply);
    match resolution.phase {
        WritePhase::Target { .. } => {
            law_ancestor_search_loses_nothing(
                AncestorSearch::start(resolution.candidate()),
                entry,
            );
        },
        WritePhase::Climbing { search, .. } => {
            law_ancestor_search_loses_nothing(search, entry);
        },
        WritePhase::Landed { resolved_workspace, ancestor } => {
            if let Step::Found(target) = resolution.after(reply) {
                let resolved = resolve::canonical_form(reply)->Ok_0;
                law_below_adds_components(resolved, ancestor.missing);
                path::law_starts_with_transitive(target, resolved, resolved_workspace);
            }
        },
        _ => {},
    }
}

/// A path that is to be created keeps all of its missing components: below the resolved
/// ancestor stand exactly the names that the requested path has below it.
pub proof fn law_created_path_keeps_its_names(
    resolution: WriteModel,
    reply: FsReply<Seq<u8>, Seq<char>>,
)
    requires
        write_invariant(resolution),
        resolution.phase is Landed,
    ensures
        resolution.after(reply) matches Step::Found(target) ==> {
            let ancestor = resolution.phase->Landed_ancestor;
            let resolved = resolve::canonical_form(reply)->Ok_0;
            let names = ancestor.missing.reverse();
            &&& path::components(target) == path::components(resolved) + names
            &&& path::components(resolution.candidate()) == path::components(ancestor.path) + names
        },
{
    if let Step::Found(target) = resolution.after(reply) {
        let resolved = resolve::canonical_form(reply)->Ok_0;
        law_below_adds_components(resolved, resolution.phase->Landed_ancestor.missing);
    }
}

/// A requested path that is a symlink is never written to.
pub proof fn law_symlink_is_refused(resolution: WriteModel)
    requires
        resolution.phase is Target,
    ensures
        resolution.after(FsReply::Present { is_symlink: true }) == Step::<
            WriteModel,
            Seq<u8>,
            Seq<char>,
        >::Refused(resolve_write::symlink_error(resolution.workspace, resolution.candidate())),
{
}

/// What holds of a resolution for reading at all times: once the workspace is resolved,
/// a path that does not climb lies in the workspace as written.
pub open spec fn read_invariant(resolution: ReadModel) -> bool {
    resolution.resolved_workspace matches Some(resolved) ==> resolution.climbs()
        || workspace::in_namespace(resolution.workspace, resolved, resolution.candidate())
}

/// Whatever the file system answers, a resolution for reading ends only with a path
/// that was reached from the workspace: as written, or, where the path climbs, once
/// resolved.
pub proof fn law_read_target_is_reached_from_workspace(
    resolution: ReadModel,
    canonical: Result<Seq<u8>, Seq<char>>,
)
    requires
        read_invariant(resolution),
    ensures
        match resolution.after(canonical) {
            Step::Continue(next) => {
                &&& read_invariant(next)
                &&& next.workspace == resolution.workspace
                &&& next.user_path == resolution.user_path
                &&& canonical == Ok::<Seq<u8>, Seq<char>>(next.resolved_workspace->0)
            },
            Step::Found(target) => {
                &&& resolution.resolved_workspace is Some
                &&& canonical == Ok::<Seq<u8>, Seq<char>>(target)
                &&& if resolution.climbs() {
                    path::starts_with(target, resolution.resolved_workspace->0)
                } else {
                    workspace::in_namespace(
                        resolution.workspace,
                        resolution.resolved_workspace->0,
                        resolution.candidate(),
                    )
                }
            },
            Step::Refused(_) => true,
        },
{
}

/// A file system that does not change: what it answers to each request.
pub struct FileTree {
    pub canonical: spec_fn(Seq<u8>) -> Result<Seq<u8>, Seq<char>>,
    pub entry: spec_fn(Seq<u8>) -> Result<Option<bool>, Seq<char>>,
}

impl FileTree {
    /// The answer to a request.
    pub open spec fn answer(self, request: FsRequest<Seq<u8>>) -> FsReply<Seq<u8>, Seq<char>> {
        match request {
            FsRequest::Canonicalize(path) => match (self.canonical)(path) {
                Ok(form) => FsReply::Canonical(form),
                Err(error) => FsReply::CanonicalFailed(error),
            },
            FsRequest::Inspect(path) => match (self.entry)(path) {
                Ok(Some(is_symlink)) => FsReply::Present { is_symlink },
                Ok(None) => FsReply::Missing,
                Err(error) => FsReply::InspectFailed(error),
            },
        }
    }
}

/// What a resolution for reading comes to.
pub open spec fn run_read(tree: FileTree, resolution: ReadModel) -> Result<Seq<u8>, Seq<char>>
    decreases (if resolution.resolved_workspace is None { 1int } else { 0 }),
{
    match resolution.after(resolve::canonical_form(tree.answer(resolution.asks()))) {
        Step::Continue(next) => run_read(tree, next),
        Step::Found(target) => Ok(target),
        Step::Refused(error) => Err(error),
    }
}

/// The path that a request to read gives, or its error.
pub open spec fn read_outcome(tree: FileTree, workspace: Seq<u8>, user_path: Seq<char>) -> Result<
    Seq<u8>,
    Seq<char>,
> {
    let requested = encode_utf8(user_path);
    let candidate = path::join(workspace, requested);
    match (tree.canonical)(workspace) {
        Err(error) => Err(resolve::workspace_error(workspace, error)),
        Ok(resolved) => {
            let climbs = path::contains_parent_reference(requested);
            if !climbs && !workspace::in_namespace(workspace, resolved, candidate) {
                Err(workspace::outside_namespace_error(workspace, resolved, candidate))
            } else {
                match (tree.canonical)(candidate) {
                    Err(error) => Err(
                        resolve::resolve_error(workspace, user_path, candidate, error),
                    ),
                    Ok(target) => if climbs && !path::starts_with(target, resolved) {
                        Err(workspace::outside_error(resolved, target))
                    } else {
                        Ok(target)
                    },
                }
            }
        },
    }
}

/// A whole resolution for reading gives the outcome of the request.
pub proof fn law_read_run(tree: FileTree, workspace: Seq<u8>, user_path: Seq<char>)
    ensures
        run_read(tree, ReadResolution::start(workspace, user_path)) == read_outcome(
            tree,
            workspace,
            user_path,
        ),
{
    reveal_with_fuel(run_read, 2);
}

/// How many steps of its kind a resolution for writing has before it at most.
pub open spec fn write_rank(resolution: WriteModel) -> (int, int) {
    match resolution.phase {
        WritePhase::Workspace => (3, 0),
        WritePhase::Target { .. } => (2, 0),
        WritePhase::Existing { .. } => (0, 0),
        WritePhase::Climbing { search, .. } => (
            1,
            path::components(search.current).len() as int,
        ),
        WritePhase::Landed { .. } => (0, 0),
    }
}

/// Every step brings a resolution for writing nearer to its end.
pub proof fn law_write_resolution_ends(
    resolution: WriteModel,
    reply: FsReply<Seq<u8>, Seq<char>>,
)
    ensures
        resolution.after(reply) matches Step::Continue(next) ==> {
            ||| write_rank(next).0 < write_rank(resolution).0
            ||| write_rank(next).0 == write_rank(resolution).0 && 0 <= write_rank(next).1
                < write_rank(resolution).1
        },
{
    if let WritePhase::Climbing { search, .. } = resolution.phase {
        law_ancestor_search_ends(search, resolve::entry_form(reply));
    }
}

/// What a resolution for writing comes to.
pub open spec fn run_write(tree: FileTree, resolution: WriteModel) -> Result<Seq<u8>, Seq<char>>
    decreases write_rank(resolution).0, write_rank(resolution).1,
{
    let reply = tree.answer(resolution.asks());
    match resolution.after(reply) {
        Step::Continue(next) => {
            proof {
                law_write_resolution_ends(resolution, reply);
            }
            run_write(tree, next)
        },
        Step::Found(target) => Ok(target),
        Step::Refused(error) => Err(error),
    }
}

/// The nearest existing path from `current` upwards, with the names of the missing
/// components below it.
pub open spec fn nearest_ancestor(
    tree: FileTree,
    path: Seq<u8>,
    current: Seq<u8>,
    missing: Seq<Seq<u8>>,
) -> Result<AncestorModel, Seq<char>>
    decreases path::components(current).len(),
{
    match (tree.entry)(current) {
        Ok(Some(_)) => Ok(Ancestor { path: current, missing }),
        Ok(None) => match (path::file_name(current), path::parent(current)) {
            (Some(name), Some(parent)) => {
                proof {
                    path::law_parent_drops_last(current);
                }
                nearest_ancestor(tree, path, parent, missing.push(name))
            },
            _ => Err(resolve_write::ancestor_error(path, current)),
        },
        Err(error) => Err(resolve_write::ancestor_inspect_error(path, current, error)),
    }
}

/// The path that a request to write gives, or its error.
pub open spec fn write_outcome(tree: FileTree, workspace: Seq<u8>, user_path: Seq<char>) -> Result<
    Seq<u8>,
    Seq<char>,
> {
    let candidate = path::join(workspace, encode_utf8(user_path));
    match (tree.canonical)(workspace) {
        Err(error) => Err(resolve::workspace_error(workspace, error)),
        Ok(resolved_workspace) => match (tree.entry)(candidate) {
            Ok(Some(true)) => Err(resolve_write::symlink_error(workspace, candidate)),
            Ok(Some(false)) => match (tree.canonical)(candidate) {
                Err(error) => Err(resolve::resolve_error(workspace, user_path, candidate, error)),
                Ok(target) => if path::starts_with(target, resolved_workspace) {
                    Ok(target)
                } else {
                    Err(workspace::outside_error(resolved_workspace, target))
                },
            },
            Ok(None) => match nearest_ancestor(tree, candidate, candidate, Seq::empty()) {
                Err(error) => Err(error),
                Ok(ancestor) => landed_outcome(
                    tree,
                    workspace,
                    user_path,
                    resolved_workspace,
                    ancestor,
                ),
            },
            Err(error) => Err(resolve_write::inspect_error(workspace, candidate, error)),
        },
    }
}

/// The path that a request to write gives below an existing ancestor, or its error.
pub open spec fn landed_outcome(
    tree: FileTree,
    workspace: Seq<u8>,
    user_path: Seq<char>,
    resolved_workspace: Seq<u8>,
    ancestor: AncestorModel,
) -> Result<Seq<u8>, Seq<char>> {
    match (tree.canonical)(ancestor.path) {
        Err(error) => Err(
            resolve_write::ancestor_resolve_error(workspace, user_path, ancestor.path, error),
        ),
        Ok(resolved) => if path::starts_with(resolved, resolved_workspace) {
            Ok(resolve_write::below(resolved, ancestor.missing))
        } else {
            Err(workspace::outside_error(resolved_workspace, resolved))
        },
    }
}

proof fn lemma_climbing_run(
    tree: FileTree,
    workspace: Seq<u8>,
    user_path: Seq<char>,
    resolved_workspace: Seq<u8>,
    search: AncestorSearchModel,
)
    ensures
        run_write(
            tree,
            WriteResolution {
                workspace,
                user_path,
                phase: WritePhase::Climbing { resolved_workspace, search },
            },
        ) == (match nearest_ancestor(tree, search.path, search.current, search.missing) {
            Err(error) => Err(error),
            Ok(ancestor) => landed_outcome(
                tree,
                workspace,
                user_path,
                resolved_workspace,
                ancestor,
            ),
        }),
    decreases path::components(search.current).len(),
{
    let resolution = WriteResolution {
        workspace,
        user_path,
        phase: WritePhase::Climbing { resolved_workspace, search },
    };
    let reply = tree.answer(resolution.asks());
    let entry = resolve::entry_form(reply);
    assert(entry == (tree.entry)(search.current));
    law_write_resolution_ends(resolution, reply);
    law_ancestor_search_ends(search, entry);
    match search.after(entry) {
        Step::Continue(next) => {
            lemma_climbing_run(tree, workspace, user_path, resolved_workspace, next);
        },
        Step::Found(ancestor) => {
            let landed = resolution.enters(WritePhase::Landed { resolved_workspace, ancestor });
            assert(run_write(tree, resolution) == run_write(tree, landed));
            let last = tree.answer(landed.asks());
            assert(resolve::canonical_form(last) == (tree.canonical)(ancestor.path));
        },
        Step::Refused(_) => {},
    }
}

/// A whole resolution for writing gives the outcome of the request.
pub proof fn law_write_run(tree: FileTree, workspace: Seq<u8>, user_path: Seq<char>)
    ensures
        run_write(tree, WriteResolution::start(workspace, user_path)) == write_outcome(
            tree,
            workspace,
            user_path,
        ),
{
    let start = WriteResolution::start(workspace, user_path);
    let candidate = start.candidate();
    if let Ok(resolved_workspace) = (tree.canonical)(workspace) {
        let target = start.enters(WritePhase::Target { resolved_workspace });
        assert(run_write(tree, start) == run_write(tree, target));
        match (tree.entry)(candidate) {
            Ok(Some(is_symlink)) => {
                if !is_symlink {
                    let existing = start.enters(WritePhase::Existing { resolved_workspace });
                    assert(run_write(tree, target) == run_write(tree, existing));
                }
            },
            Ok(None) => {
                let search = AncestorSearch::start(candidate);
                let climbing = start.enters(WritePhase::Climbing { resolved_workspace, search });
                assert(run_write(tree, target) == run_write(tree, climbing));
                lemma_climbing_run(tree, workspace, user_path, resolved_workspace, search);
            },
            Err(_) => {},
        }
    }
}

/// The path so many components above `path`, or the last one on the way that has a parent
/// no more.
pub open spec fn above(path: Seq<u8>, steps: nat) -> Seq<u8>
    decreases steps,
{
    if steps == 0 {
        path
    } else {
        match path::parent(above(path, (steps - 1) as nat)) {
            Some(parent) => parent,
            None => above(path, (steps - 1) as nat),
        }
    }
}

proof fn lemma_nearest_ancestor(
    tree: FileTree,
    path: Seq<u8>,
    current: Seq<u8>,
    missing: Seq<Seq<u8>>,
)
    requires
        splits(path, current, missing),
        current == above(path, missing.len()),
        forall|n: nat| n < missing.len() ==> (tree.entry)(#[trigger] above(path, n)) == Ok::<
            Option<bool>,
            Seq<char>,
        >(None),
    ensures
        nearest_ancestor(tree, path, current, missing) matches Ok(ancestor) ==> nearest(
            tree,
            path,
            ancestor,
        ),
    decreases path::components(current).len(),
{
    let search = AncestorSearch { path, current, missing };
    let entry = (tree.entry)(current);
    law_ancestor_search_loses_nothing(search, entry);
    law_ancestor_search_ends(search, entry);
    if let Step::Continue(next) = search.after(entry) {
        assert(above(path, next.missing.len()) == next.current);
        assert forall|n: nat| n < next.missing.len() implies (tree.entry)(
            #[trigger] above(path, n),
        ) == Ok::<Option<bool>, Seq<char>>(None) by {
            if n == missing.len() {
                assert(above(path, n) == current);
            }
        }
        lemma_nearest_ancestor(tree, path, next.current, next.missing);
    }
}

/// True when the ancestor exists, nothing exists between it and the path, and the path is
/// the ancestor with the missing names below it.
pub open spec fn nearest(tree: FileTree, path: Seq<u8>, ancestor: AncestorModel) -> bool {
    &&& splits(path, ancestor.path, ancestor.missing)
    &&& (tree.entry)(ancestor.path) matches Ok(Some(_))
    &&& ancestor.path == above(path, ancestor.missing.len())
    &&& forall|n: nat|
        n < ancestor.missing.len() ==> (tree.entry)(#[trigger] above(path, n)) == Ok::<
            Option<bool>,
            Seq<char>,
        >(None)
}

/// The nearest existing ancestor exists, every path from the one that was asked for up to
/// it is missing, and with the missing names below it, it is the path that was asked for.
pub proof fn law_nearest_ancestor(tree: FileTree, path: Seq<u8>)
    ensures
        nearest_ancestor(tree, path, path, Seq::empty()) matches Ok(ancestor) ==> nearest(
            tree,
            path,
            ancestor,
        ),
{
    law_ancestor_search_loses_nothing(AncestorSearch::start(path), Ok(None));
    lemma_nearest_ancestor(tree, path, path, Seq::empty());
}

/// A path that may be written lies in the resolved workspace, and the requested path is
/// no symlink.
pub proof fn law_write_outcome_is_inside(
    tree: FileTree,
    workspace: Seq<u8>,
    user_path: Seq<char>,
)
    ensures
        write_outcome(tree, workspace, user_path) matches Ok(target) ==> {
            let candidate = path::join(workspace, encode_utf8(user_path));
            &&& (tree.canonical)(workspace) matches Ok(resolved_workspace)
            &&& path::starts_with(target, resolved_workspace)
            &&& (tree.entry)(candidate) != Ok::<Option<bool>, Seq<char>>(Some(true))
        },
{
    let candidate = path::join(workspace, encode_utf8(user_path));
    if let Ok(resolved_workspace) = (tree.canonical)(workspace) {
        if let Ok(None) = (tree.entry)(candidate) {
            law_nearest_ancestor(tree, candidate);
            if let Ok(ancestor) = nearest_ancestor(tree, candidate, candidate, Seq::empty()) {
                if let Ok(resolved) = (tree.canonical)(ancestor.path) {
                    if path::starts_with(resolved, resolved_workspace) {
                        law_below_adds_components(resolved, ancestor.missing);
                        path::law_starts_with_transitive(
                            resolve_write::below(resolved, ancestor.missing),
                            resolved,
                            resolved_workspace,
                        );
                    }
                }
            }
        }
    }
}

/// A path that may be read and that climbs lies in the resolved workspace; one that does
/// not climb lies in the workspace as written.
pub proof fn law_read_outcome_is_reached_from_workspace(
    tree: FileTree,
    workspace: Seq<u8>,
    user_path: Seq<char>,
)
    ensures
        read_outcome(tree, workspace, user_path) matches Ok(target) ==> {
            let requested = encode_utf8(user_path);
            let candidate = path::join(workspace, requested);
            &&& (tree.canonical)(candidate) == Ok::<Seq<u8>, Seq<char>>(target)
            &&& (tree.canonical)(workspace) matches Ok(resolved)
            &&& if path::contains_parent_reference(requested) {
                path::starts_with(target, resolved)
            } else {
                workspace::in_namespace(workspace, resolved, candidate)
            }
        },
{
}

/// What the trying of the workspaces from `index` on comes to, given what each of them
/// does with the path.
pub open spec fn tried_outcome(
    outcome: spec_fn(Seq<u8>) -> Result<Seq<u8>, Seq<char>>,
    workspaces: Seq<Seq<u8>>,
    user_path: Seq<char>,
    index: int,
    errors: Seq<Seq<char>>,
) -> Result<ResolvedModel, Seq<char>>
    decreases workspaces.len() - index,
{
    if index < workspaces.len() {
        match outcome(workspaces[index]) {
            Ok(path) => Ok(ResolvedFilePath { workspace: workspaces[index], path }),
            Err(error) => tried_outcome(
                outcome,
                workspaces,
                user_path,
                index + 1,
                errors.push(search::listed_error(workspaces[index], error)),
            ),
        }
    } else {
        Err(search::search_error(workspaces, user_path, errors))
    }
}

/// The errors of the workspaces from `index` on, as they are listed, in order.
pub open spec fn listed_errors(
    outcome: spec_fn(Seq<u8>) -> Result<Seq<u8>, Seq<char>>,
    workspaces: Seq<Seq<u8>>,
    index: int,
) -> Seq<Seq<char>> {
    Seq::new(
        (workspaces.len() - index) as nat,
        |i: int|
            search::listed_error(
                workspaces[index + i],
                outcome(workspaces[index + i])->Err_0,
            ),
    )
}

/// The trying of workspaces ends with the first one that serves the path. It fails only
/// where none does, and its error then lists those of all workspaces, in order.
pub proof fn law_first_serving_workspace_wins(
    outcome: spec_fn(Seq<u8>) -> Result<Seq<u8>, Seq<char>>,
    workspaces: Seq<Seq<u8>>,
    user_path: Seq<char>,
    index: int,
    errors: Seq<Seq<char>>,
)
    requires
        0 <= index <= workspaces.len(),
    ensures
        match tried_outcome(outcome, workspaces, user_path, index, errors) {
            Ok(resolved) => exists|k: int|
                {
                    &&& index <= k < workspaces.len()
                    &&& resolved.workspace == #[trigger] workspaces[k]
                    &&& outcome(workspaces[k]) == Ok::<Seq<u8>, Seq<char>>(resolved.path)
                    &&& forall|j: int| index <= j < k ==> outcome(#[trigger] workspaces[j]) is Err
                },
            Err(error) => {
                &&& forall|j: int|
                    index <= j < workspaces.len() ==> outcome(#[trigger] workspaces[j]) is Err
                &&& error == search::search_error(
                    workspaces,
                    user_path,
                    errors + listed_errors(outcome, workspaces, index),
                )
            },
        },
    decreases workspaces.len() - index,
{
    if index < workspaces.len() {
        match outcome(workspaces[index]) {
            Ok(_) => {},
            Err(error) => {
                let more = errors.push(search::listed_error(workspaces[index], error));
                law_first_serving_workspace_wins(outcome, workspaces, user_path, index + 1, more);
                assert(more + listed_errors(outcome, workspaces, index + 1) == errors
                    + listed_errors(outcome, workspaces, index));
                if let Ok(resolved) = tried_outcome(
                    outcome,
                    workspaces,
                    user_path,
                    index + 1,
                    more,
                ) {
                    let k = choose|k: int|
                        {
                            &&& index + 1 <= k < workspaces.len()
                            &&& resolved.workspace == #[trigger] workspaces[k]
                            &&& outcome(workspaces[k]) == Ok::<Seq<u8>, Seq<char>>(resolved.path)
                            &&& forall|j: int|
                                index + 1 <= j < k ==> outcome(#[trigger] workspaces[j]) is Err
                        };
                    assert(resolved.workspace == workspaces[k]);
                }
            },
        }
    } else {
        assert(errors + listed_errors(outcome, workspaces, index) == errors);
    }
}

/// What a search for reading comes to.
pub open spec fn run_read_search(tree: FileTree, search: ReadSearchModel) -> Result<
    ResolvedModel,
    Seq<char>,
>
    decreases
            search.workspaces.len() - search.index,
            (if search.resolution.resolved_workspace is None { 1int } else { 0 }),
    when search.wf()
{
    match search.after(tree.answer(search.asks())) {
        Step::Continue(next) => run_read_search(tree, next),
        Step::Found(resolved) => Ok(resolved),
        Step::Refused(error) => Err(error),
    }
}

/// What becomes of a request to read that is tried in several workspaces: the first that
/// serves it wins.
pub open spec fn read_search_outcome(
    tree: FileTree,
    workspaces: Seq<Seq<u8>>,
    user_path: Seq<char>,
) -> Result<ResolvedModel, Seq<char>> {
    tried_outcome(
        |workspace: Seq<u8>| read_outcome(tree, workspace, user_path),
        workspaces,
        user_path,
        0,
        Seq::empty(),
    )
}

proof fn lemma_read_search_run(tree: FileTree, search: ReadSearchModel)
    requires
        search.wf(),
    ensures
        ({
            let outcome = |workspace: Seq<u8>| read_outcome(tree, workspace, search.user_path);
            let workspace = search.workspaces[search.index as int];
            run_read_search(tree, search) == match run_read(tree, search.resolution) {
                Ok(path) => Ok(ResolvedFilePath { workspace, path }),
                Err(error) => tried_outcome(
                    outcome,
                    search.workspaces,
                    search.user_path,
                    search.index + 1,
                    search.errors.push(search::listed_error(workspace, error)),
                ),
            }
        }),
    decreases
            search.workspaces.len() - search.index,
            (if search.resolution.resolved_workspace is None { 1int } else { 0 }),
{
    let outcome = |workspace: Seq<u8>| read_outcome(tree, workspace, search.user_path);
    let workspace = search.workspaces[search.index as int];
    let reply = tree.answer(search.asks());
    match search.resolution.after(resolve::canonical_form(reply)) {
        Step::Continue(resolution) => {
            let next = ReadSearch { resolution, ..search };
            lemma_read_search_run(tree, next);
        },
        Step::Found(_) => {},
        Step::Refused(error) => {
            let errors = search.errors.push(search::listed_error(workspace, error));
            let index = (search.index + 1) as usize;
            if index < search.workspaces.len() {
                let next = ReadSearch {
                    workspaces: search.workspaces,
                    user_path: search.user_path,
                    index,
                    errors,
                    resolution: ReadResolution::start(
                        search.workspaces[index as int],
                        search.user_path,
                    ),
                };
                assert(search.after(reply) == Step::<
                    ReadSearchModel,
                    ResolvedModel,
                    Seq<char>,
                >::Continue(next));
                lemma_read_search_run(tree, next);
                law_read_run(tree, search.workspaces[index as int], search.user_path);
                assert(outcome(search.workspaces[index as int]) == read_outcome(
                    tree,
                    search.workspaces[index as int],
                    search.user_path,
                ));
            }
        },
    }
}

/// A whole search for reading gives the outcome of the first workspace that serves the
/// path.
pub proof fn law_read_search_run(
    tree: FileTree,
    workspaces: Seq<Seq<u8>>,
    user_path: Seq<char>,
)
    requires
        workspaces.len() <= usize::MAX,
    ensures
        match ReadSearch::start(workspaces, user_path) {
            Step::Continue(search) => run_read_search(tree, search) == read_search_outcome(
                tree,
                workspaces,
                user_path,
            ),
            Step::Found(_) => false,
            Step::Refused(error) => read_search_outcome(tree, workspaces, user_path) == Err::<
                ResolvedModel,
                Seq<char>,
            >(error),
        },
{
    let outcome = |workspace: Seq<u8>| read_outcome(tree, workspace, user_path);
    if let Step::Continue(search) = ReadSearch::start(workspaces, user_path) {
        lemma_read_search_run(tree, search);
        law_read_run(tree, workspaces[0], user_path);
        assert(outcome(workspaces[0]) == read_outcome(tree, workspaces[0], user_path));
    }
}

/// How many steps of its kind a search for writing has before it at most.
pub open spec fn write_search_rank(search: WriteSearchModel) -> (int, int, int, int) {
    match search.phase {
        WriteSearchPhase::Probing { index } => (1, search.workspaces.len() - index, 0, 0),
        WriteSearchPhase::Chosen { resolution, .. } => (
            0,
            0,
            write_rank(resolution).0,
            write_rank(resolution).1,
        ),
        WriteSearchPhase::Trying { index, resolution, .. } => (
            0,
            search.workspaces.len() - index,
            write_rank(resolution).0,
            write_rank(resolution).1,
        ),
    }
}

/// Every step brings a search for writing nearer to its end.
pub proof fn law_write_search_ends(
    search: WriteSearchModel,
    reply: FsReply<Seq<u8>, Seq<char>>,
)
    requires
        search.wf(),
    ensures
        search.after(reply) matches Step::Continue(next) ==> {
            let now = write_search_rank(search);
            let later = write_search_rank(next);
            &&& next.wf()
            &&& {
                ||| later.0 < now.0
                ||| later.0 == now.0 && 0 <= later.1 < now.1
                ||| later.0 == now.0 && later.1 == now.1 && 0 <= later.2 < now.2
                ||| later.0 == now.0 && later.1 == now.1 && later.2 == now.2 && 0
                    <= later.3 < now.3
            }
        },
{
    match search.phase {
        WriteSearchPhase::Probing { .. } => {},
        WriteSearchPhase::Chosen { resolution, .. } => {
            law_write_resolution_ends(resolution, reply);
        },
        WriteSearchPhase::Trying { resolution, .. } => {
            law_write_resolution_ends(resolution, reply);
        },
    }
}

/// What a search for writing comes to.
pub open spec fn run_write_search(tree: FileTree, search: WriteSearchModel) -> Result<
    ResolvedModel,
    Seq<char>,
>
    decreases
            write_search_rank(search).0,
            write_search_rank(search).1,
            write_search_rank(search).2,
            write_search_rank(search).3,
    when search.wf()
{
    let reply = tree.answer(search.asks());
    match search.after(reply) {
        Step::Continue(next) => {
            proof {
                law_write_search_ends(search, reply);
            }
            run_write_search(tree, next)
        },
        Step::Found(resolved) => Ok(resolved),
        Step::Refused(error) => Err(error),
    }
}

/// What becomes of a request to write that is tried in several workspaces, with no regard
/// to where the path exists.
pub open spec fn write_tried_outcome(
    tree: FileTree,
    workspaces: Seq<Seq<u8>>,
    user_path: Seq<char>,
    index: int,
    errors: Seq<Seq<char>>,
) -> Result<ResolvedModel, Seq<char>> {
    tried_outcome(
        |workspace: Seq<u8>| write_outcome(tree, workspace, user_path),
        workspaces,
        user_path,
        index,
        errors,
    )
}

/// What becomes of a relative path that is to be written, from the workspace at `index`
/// on: the first workspace in which it exists decides alone.
pub open spec fn write_probed_outcome(
    tree: FileTree,
    workspaces: Seq<Seq<u8>>,
    user_path: Seq<char>,
    index: int,
) -> Result<ResolvedModel, Seq<char>>
    decreases workspaces.len() - index,
{
    if index < workspaces.len() {
        let workspace = workspaces[index];
        let candidate = path::join(workspace, encode_utf8(user_path));
        match (tree.entry)(candidate) {
            Ok(Some(_)) => match write_outcome(tree, workspace, user_path) {
                Ok(path) => Ok(ResolvedFilePath { workspace, path }),
                Err(error) => Err(error),
            },
            Ok(None) => write_probed_outcome(tree, workspaces, user_path, index + 1),
            Err(error) => Err(search::probe_error(workspace, user_path, candidate, error)),
        }
    } else {
        write_tried_outcome(tree, workspaces, user_path, 0, Seq::empty())
    }
}

/// What becomes of a request to write against several workspaces.
pub open spec fn write_search_outcome(
    tree: FileTree,
    workspaces: Seq<Seq<u8>>,
    user_path: Seq<char>,
) -> Result<ResolvedModel, Seq<char>> {
    if path::is_absolute(encode_utf8(user_path)) {
        write_tried_outcome(tree, workspaces, user_path, 0, Seq::empty())
    } else {
        write_probed_outcome(tree, workspaces, user_path, 0)
    }
}

proof fn lemma_chosen_run(tree: FileTree, search: WriteSearchModel)
    requires
        search.wf(),
        search.phase is Chosen,
    ensures
        run_write_search(tree, search) == match run_write(
            tree,
            search.phase->Chosen_resolution,
        ) {
            Ok(path) => Ok(
                ResolvedFilePath { workspace: search.workspaces[search.index() as int], path },
            ),
            Err(error) => Err(error),
        },
    decreases
            write_rank(search.phase->Chosen_resolution).0,
            write_rank(search.phase->Chosen_resolution).1,
{
    let resolution = search.phase->Chosen_resolution;
    let reply = tree.answer(search.asks());
    law_write_search_ends(search, reply);
    law_write_resolution_ends(resolution, reply);
    if let Step::Continue(next) = resolution.after(reply) {
        lemma_chosen_run(
            tree,
            WriteSearch {
                phase: WriteSearchPhase::Chosen { index: search.index(), resolution: next },
                ..search
            },
        );
    }
}

proof fn lemma_trying_run(tree: FileTree, search: WriteSearchModel)
    requires
        search.wf(),
        search.phase is Trying,
    ensures
        ({
            let workspace = search.workspaces[search.index() as int];
            run_write_search(tree, search) == match run_write(
                tree,
                search.phase->Trying_resolution,
            ) {
                Ok(path) => Ok(ResolvedFilePath { workspace, path }),
                Err(error) => write_tried_outcome(
                    tree,
                    search.workspaces,
                    search.user_path,
                    search.index() + 1,
                    search.phase->Trying_errors.push(search::listed_error(workspace, error)),
                ),
            }
        }),
    decreases
            search.workspaces.len() - search.index(),
            write_rank(search.phase->Trying_resolution).0,
            write_rank(search.phase->Trying_resolution).1,
{
    let workspace = search.workspaces[search.index() as int];
    let resolution = search.phase->Trying_resolution;
    let reply = tree.answer(search.asks());
    law_write_search_ends(search, reply);
    law_write_resolution_ends(resolution, reply);
    match resolution.after(reply) {
        Step::Continue(next) => {
            lemma_trying_run(
                tree,
                WriteSearch {
                    phase: WriteSearchPhase::Trying {
                        index: search.index(),
                        errors: search.phase->Trying_errors,
                        resolution: next,
                    },
                    ..search
                },
            );
        },
        Step::Found(_) => {},
        Step::Refused(error) => {
            lemma_trying_from(
                tree,
                search.workspaces,
                search.user_path,
                (search.index() + 1) as usize,
                search.phase->Trying_errors.push(search::listed_error(workspace, error)),
            );
        },
    }
}

proof fn lemma_trying_from(
    tree: FileTree,
    workspaces: Seq<Seq<u8>>,
    user_path: Seq<char>,
    index: usize,
    errors: Seq<Seq<char>>,
)
    requires
        workspaces.len() <= usize::MAX,
        index <= workspaces.len(),
    ensures
        match WriteSearch::trying(workspaces, user_path, index, errors) {
            Step::Continue(search) => run_write_search(tree, search) == write_tried_outcome(
                tree,
                workspaces,
                user_path,
                index as int,
                errors,
            ),
            Step::Found(_) => false,
            Step::Refused(error) => write_tried_outcome(
                tree,
                workspaces,
                user_path,
                index as int,
                errors,
            ) == Err::<ResolvedModel, Seq<char>>(error),
        },
    decreases workspaces.len() - index, 4int, 0int,
{
    let outcome = |workspace: Seq<u8>| write_outcome(tree, workspace, user_path);
    if let Step::Continue(search) = WriteSearch::trying(workspaces, user_path, index, errors) {
        let workspace = workspaces[index as int];
        lemma_trying_run(tree, search);
        law_write_run(tree, workspace, user_path);
        assert(outcome(workspace) == write_outcome(tree, workspace, user_path));
    }
}

proof fn lemma_probing_from(
    tree: FileTree,
    workspaces: Seq<Seq<u8>>,
    user_path: Seq<char>,
    index: usize,
)
    requires
        workspaces.len() <= usize::MAX,
        index <= workspaces.len(),
    ensures
        match WriteSearch::probing(workspaces, user_path, index) {
            Step::Continue(search) => run_write_search(tree, search) == write_probed_outcome(
                tree,
                workspaces,
                user_path,
                index as int,
            ),
            Step::Found(_) => false,
            Step::Refused(error) => write_probed_outcome(
                tree,
                workspaces,
                user_path,
                index as int,
            ) == Err::<ResolvedModel, Seq<char>>(error),
        },
    decreases workspaces.len() - index,
{
    if index < workspaces.len() {
        let workspace = workspaces[index as int];
        let search = WriteSearch {
            workspaces,
            user_path,
            phase: WriteSearchPhase::Probing { index },
        };
        let reply = tree.answer(search.asks());
        let candidate = path::join(workspace, encode_utf8(user_path));
        assert(resolve::entry_form(reply) == (tree.entry)(candidate));
        law_write_search_ends(search, reply);
        match (tree.entry)(candidate) {
            Ok(Some(_)) => {
                let chosen = WriteSearch {
                    phase: WriteSearchPhase::Chosen {
                        index,
                        resolution: WriteResolution::start(workspace, user_path),
                    },
                    ..search
                };
                assert(run_write_search(tree, search) == run_write_search(tree, chosen));
                lemma_chosen_run(tree, chosen);
                law_write_run(tree, workspace, user_path);
            },
            Ok(None) => {
                lemma_probing_from(tree, workspaces, user_path, (index + 1) as usize);
            },
            Err(_) => {},
        }
    } else {
        lemma_trying_from(tree, workspaces, user_path, 0, Seq::empty());
    }
}

/// A whole search for writing gives the outcome of the request: the first workspace in
/// which a relative path exists decides alone, and otherwise the first that serves the
/// path wins.
pub proof fn law_write_search_run(
    tree: FileTree,
    workspaces: Seq<Seq<u8>>,
    user_path: Seq<char>,
)
    requires
        workspaces.len() <= usize::MAX,
    ensures
        match WriteSearch::start(workspaces, user_path) {
            Step::Continue(search) => run_write_search(tree, search) == write_search_outcome(
                tree,
                workspaces,
                user_path,
            ),
            Step::Found(_) => false,
            Step::Refused(error) => write_search_outcome(tree, workspaces, user_path) == Err::<
                ResolvedModel,
                Seq<char>,
            >(error),
        },
{
    if path::is_absolute(encode_utf8(user_path)) {
        lemma_trying_from(tree, workspaces, user_path, 0, Seq::empty());
    } else {
        lemma_probing_from(tree, workspaces, user_path, 0);
    }
}

proof fn lemma_tried_write_is_inside(
    tree: FileTree,
    workspaces: Seq<Seq<u8>>,
    user_path: Seq<char>,
    resolved: ResolvedModel,
)
    requires
        write_tried_outcome(tree, workspaces, user_path, 0, Seq::empty()) == Ok::<
            ResolvedModel,
            Seq<char>,
        >(resolved),
    ensures
        workspaces.contains(resolved.workspace),
        write_outcome(tree, resolved.workspace, user_path) == Ok::<Seq<u8>, Seq<char>>(
            resolved.path,
        ),
{
    let outcome = |workspace: Seq<u8>| write_outcome(tree, workspace, user_path);
    law_first_serving_workspace_wins(outcome, workspaces, user_path, 0, Seq::empty());
    let k = choose|k: int|
        {
            &&& 0 <= k < workspaces.len()
            &&& resolved.workspace == #[trigger] workspaces[k]
            &&& outcome(workspaces[k]) == Ok::<Seq<u8>, Seq<char>>(resolved.path)
            &&& forall|j: int| 0 <= j < k ==> outcome(#[trigger] workspaces[j]) is Err
        };
    assert(outcome(workspaces[k]) == write_outcome(tree, workspaces[k], user_path));
}

proof fn lemma_probed_write_is_inside(
    tree: FileTree,
    workspaces: Seq<Seq<u8>>,
    user_path: Seq<char>,
    index: int,
    resolved: ResolvedModel,
)
    requires
        0 <= index <= workspaces.len(),
        write_probed_outcome(tree, workspaces, user_path, index) == Ok::<ResolvedModel, Seq<char>>(
            resolved,
        ),
    ensures
        workspaces.contains(resolved.workspace),
        write_outcome(tree, resolved.workspace, user_path) == Ok::<Seq<u8>, Seq<char>>(
            resolved.path,
        ),
    decreases workspaces.len() - index,
{
    if index < workspaces.len() {
        let candidate = path::join(workspaces[index], encode_utf8(user_path));
        if let Ok(None) = (tree.entry)(candidate) {
            lemma_probed_write_is_inside(tree, workspaces, user_path, index + 1, resolved);
        }
    } else {
        lemma_tried_write_is_inside(tree, workspaces, user_path, resolved);
    }
}

/// A path that may be written against several workspaces belongs to one of them and lies
/// in it once both are resolved.
pub proof fn law_write_search_outcome_is_inside(
    tree: FileTree,
    workspaces: Seq<Seq<u8>>,
    user_path: Seq<char>,
)
    ensures
        write_search_outcome(tree, workspaces, user_path) matches Ok(resolved) ==> {
            &&& workspaces.contains(resolved.workspace)
            &&& (tree.canonical)(resolved.workspace) matches Ok(resolved_workspace)
            &&& path::starts_with(resolved.path, resolved_workspace)
        },
{
    if let Ok(resolved) = write_search_outcome(tree, workspaces, user_path) {
        if path::is_absolute(encode_utf8(user_path)) {
            lemma_tried_write_is_inside(tree, workspaces, user_path, resolved);
        } else {
            lemma_probed_write_is_inside(tree, workspaces, user_path, 0, resolved);
        }
        law_write_outcome_is_inside(tree, resolved.workspace, user_path);
    }
}

} // verus!
