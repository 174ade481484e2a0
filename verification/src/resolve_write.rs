//! Resolving paths that are to be written, which need not exist yet.
use crate::path;
use crate::path::PosixPath;
use crate::resolve;
use crate::resolve::{
    canonical_result, entry_result, resolve_failure, resolve_workspace_path, FsReply, FsRequest,
    Step,
};
use crate::text;
use crate::workspace;
use crate::workspace::ensure_path_in_workspace;
use vstd::prelude::*;
use vstd::string::*;
use vstd::utf8::*;

verus! {

/// The nearest existing path above a missing one, and the names of the missing
/// components below it, the last one first.
pub struct Ancestor<P, L> {
    pub path: P,
    pub missing: L,
}

/// The search for the nearest existing path, from a path upwards.
pub struct AncestorSearch<P, L> {
    pub path: P,
    pub current: P,
    pub missing: L,
}

/// The model of a found ancestor.
pub type AncestorModel = Ancestor<Seq<u8>, Seq<Seq<u8>>>;

/// The model of a search for an ancestor.
pub type AncestorSearchModel = AncestorSearch<Seq<u8>, Seq<Seq<u8>>>;

impl<P: DeepView, L: DeepView> DeepView for Ancestor<P, L> {
    type V = Ancestor<P::V, L::V>;

    open spec fn deep_view(&self) -> Ancestor<P::V, L::V> {
        Ancestor { path: self.path.deep_view(), missing: self.missing.deep_view() }
    }
}

impl<P: DeepView, L: DeepView> DeepView for AncestorSearch<P, L> {
    type V = AncestorSearch<P::V, L::V>;

    open spec fn deep_view(&self) -> AncestorSearch<P::V, L::V> {
        AncestorSearch {
            path: self.path.deep_view(),
            current: self.current.deep_view(),
            missing: self.missing.deep_view(),
        }
    }
}

/// The error for a missing path that does not end in a name.
pub open spec fn ancestor_error(path: Seq<u8>, current: Seq<u8>) -> Seq<char> {
    "Access to paths outside the workspace is not allowed while resolving ancestor (requested_path: "@
        + text::as_text(path) + ", current_path: "@ + text::as_text(current) + ")"@
}

/// The error for a path above the requested one that could not be looked at.
pub open spec fn ancestor_inspect_error(
    path: Seq<u8>,
    current: Seq<u8>,
    error: Seq<char>,
) -> Seq<char> {
    "Failed to inspect file path while resolving ancestor (requested_path: "@ + text::as_text(
        path,
    ) + ", current_path: "@ + text::as_text(current) + "): "@ + error
}

impl AncestorSearch<Seq<u8>, Seq<Seq<u8>>> {
    /// The start of a search: at the path itself.
    pub open spec fn start(path: Seq<u8>) -> AncestorSearchModel {
        AncestorSearch { path, current: path, missing: Seq::empty() }
    }

    /// What the search asks for.
    pub open spec fn asks(self) -> FsRequest<Seq<u8>> {
        FsRequest::Inspect(self.current)
    }

    /// How the search goes on: it ends where something exists, and goes up one
    /// component where nothing does.
    pub open spec fn after(self, entry: Result<Option<bool>, Seq<char>>) -> Step<
        AncestorSearchModel,
        AncestorModel,
        Seq<char>,
    > {
        match entry {
            Ok(Some(_)) => Step::Found(Ancestor { path: self.current, missing: self.missing }),
            Ok(None) => match (path::file_name(self.current), path::parent(self.current)) {
                (Some(name), Some(parent)) => Step::Continue(
                    AncestorSearch {
                        path: self.path,
                        current: parent,
                        missing: self.missing.push(name),
                    },
                ),
                _ => Step::Refused(ancestor_error(self.path, self.current)),
            },
            Err(error) => Step::Refused(ancestor_inspect_error(self.path, self.current, error)),
        }
    }
}

/// Starts to look for the nearest existing path component.
pub fn nearest_existing_ancestor(path: &PosixPath) -> (search: AncestorSearch<
    PosixPath,
    Vec<PosixPath>,
>)
    ensures
        search.deep_view() == AncestorSearch::start(path@),
{
    let search = AncestorSearch {
        path: path.clone(),
        current: path.clone(),
        missing: Vec::<PosixPath>::new(),
    };
    assert(search.missing.deep_view() == Seq::<Seq<u8>>::empty());
    search
}

impl AncestorSearch<PosixPath, Vec<PosixPath>> {
    /// What the search asks for.
    pub fn request(&self) -> (request: FsRequest<PosixPath>)
        ensures
            request.deep_view() == self.deep_view().asks(),
    {
        FsRequest::Inspect(self.current.clone())
    }

    /// Takes the answer to what the search asked for.
    pub fn reply(self, reply: FsReply<PosixPath, String>) -> (step: Step<
        AncestorSearch<PosixPath, Vec<PosixPath>>,
        Ancestor<PosixPath, Vec<PosixPath>>,
        String,
    >)
        ensures
            step.deep_view() == self.deep_view().after(resolve::entry_form(reply.deep_view())),
    {
        match entry_result(reply) {
            Ok(Some(_)) => Step::Found(Ancestor { path: self.current, missing: self.missing }),
            Ok(None) => {
                let name = self.current.file_name();
                let parent = self.current.parent();
                match (name, parent) {
                    (Some(name), Some(parent)) => {
                        let mut missing = self.missing;
                        let ghost before = missing.deep_view();
                        missing.push(PosixPath::from_bytes(name));
                        assert(missing.deep_view() == before.push(name@));
                        Step::Continue(
                            AncestorSearch { path: self.path, current: parent, missing },
                        )
                    },
                    _ => {
                        let mut message =
                            "Access to paths outside the workspace is not allowed while resolving ancestor (requested_path: ".to_string();
                        message.append(self.path.display().as_str());
                        message.append(", current_path: ");
                        message.append(self.current.display().as_str());
                        message.append(")");
                        Step::Refused(message)
                    },
                }
            },
            Err(error) => {
                let mut message =
                    "Failed to inspect file path while resolving ancestor (requested_path: ".to_string();
                message.append(self.path.display().as_str());
                message.append(", current_path: ");
                message.append(self.current.display().as_str());
                message.append("): ");
                message.append(error.as_str());
                Step::Refused(message)
            },
        }
    }
}

/// The path below `base` along `names`, the last one first.
pub open spec fn below(base: Seq<u8>, names: Seq<Seq<u8>>) -> Seq<u8>
    decreases names.len(),
{
    if names.len() == 0 {
        base
    } else {
        below(path::join(base, names.last()), names.drop_last())
    }
}

/// The path below `base` along `names`, the last one first.
pub fn join_missing(base: PosixPath, names: &Vec<PosixPath>) -> (joined: PosixPath)
    ensures
        joined@ == below(base@, names.deep_view()),
{
    let ghost all = names.deep_view();
    let mut joined = base;
    let mut left: usize = names.len();
    assert(all.take(left as int) == all);
    while left > 0
        invariant
            left <= names.len(),
            all == names.deep_view(),
            below(joined@, all.take(left as int)) == below(base@, all),
        decreases left,
    {
        left -= 1;
        joined = joined.join(&names[left]);
        assert(all.take(left + 1).drop_last() == all.take(left as int));
    }
    joined
}

/// How far the resolution of a path that is to be written has come.
pub enum WritePhase<P, L> {
    /// The workspace is to be resolved.
    Workspace,
    /// The requested path is to be looked at.
    Target { resolved_workspace: P },
    /// The requested path exists and is to be resolved.
    Existing { resolved_workspace: P },
    /// The requested path is missing and an existing one above it is looked for.
    Climbing { resolved_workspace: P, search: AncestorSearch<P, L> },
    /// The existing path above the requested one is to be resolved.
    Landed { resolved_workspace: P, ancestor: Ancestor<P, L> },
}

/// The resolution of a path that is to be written.
pub struct WriteResolution<P, T, L> {
    pub workspace: P,
    pub user_path: T,
    pub phase: WritePhase<P, L>,
}

/// The model of a phase.
pub type WritePhaseModel = WritePhase<Seq<u8>, Seq<Seq<u8>>>;

/// The model of a resolution for writing.
pub type WriteModel = WriteResolution<Seq<u8>, Seq<char>, Seq<Seq<u8>>>;

impl<P: DeepView, L: DeepView> DeepView for WritePhase<P, L> {
    type V = WritePhase<P::V, L::V>;

    open spec fn deep_view(&self) -> WritePhase<P::V, L::V> {
        match self {
            WritePhase::Workspace => WritePhase::Workspace,
            WritePhase::Target { resolved_workspace } => WritePhase::Target {
                resolved_workspace: resolved_workspace.deep_view(),
            },
            WritePhase::Existing { resolved_workspace } => WritePhase::Existing {
                resolved_workspace: resolved_workspace.deep_view(),
            },
            WritePhase::Climbing { resolved_workspace, search } => WritePhase::Climbing {
                resolved_workspace: resolved_workspace.deep_view(),
                search: search.deep_view(),
            },
            WritePhase::Landed { resolved_workspace, ancestor } => WritePhase::Landed {
                resolved_workspace: resolved_workspace.deep_view(),
                ancestor: ancestor.deep_view(),
            },
        }
    }
}

impl<P: DeepView, T: DeepView, L: DeepView> DeepView for WriteResolution<P, T, L> {
    type V = WriteResolution<P::V, T::V, L::V>;

    open spec fn deep_view(&self) -> WriteResolution<P::V, T::V, L::V> {
        WriteResolution {
            workspace: self.workspace.deep_view(),
            user_path: self.user_path.deep_view(),
            phase: self.phase.deep_view(),
        }
    }
}

/// The error for a requested path that is a symlink.
pub open spec fn symlink_error(workspace: Seq<u8>, path: Seq<u8>) -> Seq<char> {
    "Writing to symbolic links is not allowed (workspace: "@ + text::as_text(workspace)
        + ", path: "@ + text::as_text(path) + ")"@
}

/// The error for a requested path that could not be looked at.
pub open spec fn inspect_error(workspace: Seq<u8>, path: Seq<u8>, error: Seq<char>) -> Seq<char> {
    "Failed to inspect file path (workspace: "@ + text::as_text(workspace) + ", path: "@
        + text::as_text(path) + "): "@ + error
}

/// The error for an existing path above the requested one without a canonical form.
pub open spec fn ancestor_resolve_error(
    workspace: Seq<u8>,
    user_path: Seq<char>,
    ancestor: Seq<u8>,
    error: Seq<char>,
) -> Seq<char> {
    "Failed to resolve file path ancestor (workspace: "@ + text::as_text(workspace)
        + ", requested_path: "@ + user_path + ", ancestor_path: "@ + text::as_text(ancestor)
        + "): "@ + error
}

impl WriteResolution<Seq<u8>, Seq<char>, Seq<Seq<u8>>> {
    /// The start of a resolution.
    pub open spec fn start(workspace: Seq<u8>, user_path: Seq<char>) -> WriteModel {
        WriteResolution { workspace, user_path, phase: WritePhase::Workspace }
    }

    /// The requested path, taken from the workspace.
    pub open spec fn candidate(self) -> Seq<u8> {
        path::join(self.workspace, encode_utf8(self.user_path))
    }

    /// The same resolution in another phase.
    pub open spec fn enters(self, phase: WritePhaseModel) -> WriteModel {
        WriteResolution { phase, ..self }
    }

    /// What the resolution asks for.
    pub open spec fn asks(self) -> FsRequest<Seq<u8>> {
        match self.phase {
            WritePhase::Workspace => FsRequest::Canonicalize(self.workspace),
            WritePhase::Target { .. } => FsRequest::Inspect(self.candidate()),
            WritePhase::Existing { .. } => FsRequest::Canonicalize(self.candidate()),
            WritePhase::Climbing { search, .. } => search.asks(),
            WritePhase::Landed { ancestor, .. } => FsRequest::Canonicalize(ancestor.path),
        }
    }

    /// How the resolution goes on.
    ///
    /// A symlink is refused. Another existing path must lie in the resolved workspace
    /// once it is resolved. For a missing path the nearest existing one above it must
    /// lie there, and the missing names are added below it.
    pub open spec fn after(self, reply: FsReply<Seq<u8>, Seq<char>>) -> Step<
        WriteModel,
        Seq<u8>,
        Seq<char>,
    > {
        let canonical = resolve::canonical_form(reply);
        let entry = resolve::entry_form(reply);
        match self.phase {
            WritePhase::Workspace => match canonical {
                Ok(resolved_workspace) => Step::Continue(
                    self.enters(WritePhase::Target { resolved_workspace }),
                ),
                Err(error) => Step::Refused(resolve::workspace_error(self.workspace, error)),
            },
            WritePhase::Target { resolved_workspace } => match entry {
                Ok(Some(true)) => Step::Refused(symlink_error(self.workspace, self.candidate())),
                Ok(Some(false)) => Step::Continue(
                    self.enters(WritePhase::Existing { resolved_workspace }),
                ),
                Ok(None) => Step::Continue(
                    self.enters(
                        WritePhase::Climbing {
                            resolved_workspace,
                            search: AncestorSearch::start(self.candidate()),
                        },
                    ),
                ),
                Err(error) => Step::Refused(
                    inspect_error(self.workspace, self.candidate(), error),
                ),
            },
            WritePhase::Existing { resolved_workspace } => match canonical {
                Ok(target) => if path::starts_with(target, resolved_workspace) {
                    Step::Found(target)
                } else {
                    Step::Refused(workspace::outside_error(resolved_workspace, target))
                },
                Err(error) => Step::Refused(
                    resolve::resolve_error(
                        self.workspace,
                        self.user_path,
                        self.candidate(),
                        error,
                    ),
                ),
            },
            WritePhase::Climbing { resolved_workspace, search } => match search.after(entry) {
                Step::Continue(search) => Step::Continue(
                    self.enters(WritePhase::Climbing { resolved_workspace, search }),
                ),
                Step::Found(ancestor) => Step::Continue(
                    self.enters(WritePhase::Landed { resolved_workspace, ancestor }),
                ),
                Step::Refused(error) => Step::Refused(error),
            },
            WritePhase::Landed { resolved_workspace, ancestor } => match canonical {
                Ok(resolved) => if path::starts_with(resolved, resolved_workspace) {
                    Step::Found(below(resolved, ancestor.missing))
                } else {
                    Step::Refused(workspace::outside_error(resolved_workspace, resolved))
                },
                Err(error) => Step::Refused(
                    ancestor_resolve_error(
                        self.workspace,
                        self.user_path,
                        ancestor.path,
                        error,
                    ),
                ),
            },
        }
    }
}

/// Starts to resolve a write target inside the workspace, even when the destination
/// does not yet exist.
pub fn resolve_write_path(workspace: &PosixPath, user_path: &str) -> (resolution: WriteResolution<
    PosixPath,
    String,
    Vec<PosixPath>,
>)
    ensures
        resolution.deep_view() == WriteResolution::start(workspace@, user_path@),
{
    WriteResolution {
        workspace: workspace.clone(),
        user_path: user_path.to_string(),
        phase: WritePhase::Workspace,
    }
}

impl WriteResolution<PosixPath, String, Vec<PosixPath>> {
    /// The requested path, taken from the workspace.
    fn candidate_path(&self) -> (candidate: PosixPath)
        ensures
            candidate@ == self.deep_view().candidate(),
    {
        self.workspace.join_bytes(self.user_path.as_str().as_bytes())
    }

    /// What the resolution asks for.
    pub fn request(&self) -> (request: FsRequest<PosixPath>)
        ensures
            request.deep_view() == self.deep_view().asks(),
    {
        match &self.phase {
            WritePhase::Workspace => FsRequest::Canonicalize(self.workspace.clone()),
            WritePhase::Target { .. } => FsRequest::Inspect(self.candidate_path()),
            WritePhase::Existing { .. } => FsRequest::Canonicalize(self.candidate_path()),
            WritePhase::Climbing { search, .. } => search.request(),
            WritePhase::Landed { ancestor, .. } => FsRequest::Canonicalize(ancestor.path.clone()),
        }
    }

    /// Takes the answer to what the resolution asked for.
    pub fn reply(self, reply: FsReply<PosixPath, String>) -> (step: Step<
        WriteResolution<PosixPath, String, Vec<PosixPath>>,
        PosixPath,
        String,
    >)
        ensures
            step.deep_view() == self.deep_view().after(reply.deep_view()),
    {
        let candidate = self.candidate_path();
        let workspace = self.workspace;
        let user_path = self.user_path;
        match self.phase {
            WritePhase::Workspace => match resolve_workspace_path(
                &workspace,
                canonical_result(reply),
            ) {
                Ok(resolved_workspace) => Step::Continue(
                    WriteResolution {
                        workspace,
                        user_path,
                        phase: WritePhase::Target { resolved_workspace },
                    },
                ),
                Err(error) => Step::Refused(error),
            },
            WritePhase::Target { resolved_workspace } => match entry_result(reply) {
                Ok(Some(is_symlink)) => if is_symlink {
                    let mut message =
                        "Writing to symbolic links is not allowed (workspace: ".to_string();
                    message.append(workspace.display().as_str());
                    message.append(", path: ");
                    message.append(candidate.display().as_str());
                    message.append(")");
                    Step::Refused(message)
                } else {
                    Step::Continue(
                        WriteResolution {
                            workspace,
                            user_path,
                            phase: WritePhase::Existing { resolved_workspace },
                        },
                    )
                },
                Ok(None) => Step::Continue(
                    WriteResolution {
                        workspace,
                        user_path,
                        phase: WritePhase::Climbing {
                            resolved_workspace,
                            search: nearest_existing_ancestor(&candidate),
                        },
                    },
                ),
                Err(error) => {
                    let mut message = "Failed to inspect file path (workspace: ".to_string();
                    message.append(workspace.display().as_str());
                    message.append(", path: ");
                    message.append(candidate.display().as_str());
                    message.append("): ");
                    message.append(error.as_str());
                    Step::Refused(message)
                },
            },
            WritePhase::Existing { resolved_workspace } => match canonical_result(reply) {
                Ok(target) => match ensure_path_in_workspace(&resolved_workspace, &target) {
                    Ok(()) => Step::Found(target),
                    Err(error) => Step::Refused(error),
                },
                Err(error) => Step::Refused(
                    resolve_failure(&workspace, user_path.as_str(), &candidate, error.as_str()),
                ),
            },
            WritePhase::Climbing { resolved_workspace, search } => match search.reply(reply) {
                Step::Continue(search) => Step::Continue(
                    WriteResolution {
                        workspace,
                        user_path,
                        phase: WritePhase::Climbing { resolved_workspace, search },
                    },
                ),
                Step::Found(ancestor) => Step::Continue(
                    WriteResolution {
                        workspace,
                        user_path,
                        phase: WritePhase::Landed { resolved_workspace, ancestor },
                    },
                ),
                Step::Refused(error) => Step::Refused(error),
            },
            WritePhase::Landed { resolved_workspace, ancestor } => match canonical_result(reply) {
                Ok(resolved) => match ensure_path_in_workspace(&resolved_workspace, &resolved) {
                    Ok(()) => Step::Found(join_missing(resolved, &ancestor.missing)),
                    Err(error) => Step::Refused(error),
                },
                Err(error) => {
                    let mut message =
                        "Failed to resolve file path ancestor (workspace: ".to_string();
                    message.append(workspace.display().as_str());
                    message.append(", requested_path: ");
                    message.append(user_path.as_str());
                    message.append(", ancestor_path: ");
                    message.append(ancestor.path.display().as_str());
                    message.append("): ");
                    message.append(error.as_str());
                    Step::Refused(message)
                },
            },
        }
    }
}

} // verus!
