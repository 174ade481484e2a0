//! Resolving paths against a workspace, one question to the file system at a time.
//!
//! A resolution asks for one thing of the file system, is told the answer, and then
//! asks for the next thing or ends. The types are generic over how paths and texts
//! are held, so that the same type describes a running resolution and its model.
use crate::path;
use crate::path::PosixPath;
use crate::text;
use crate::workspace;
use crate::workspace::{
    ensure_path_in_workspace, ensure_path_in_workspace_namespace, path_contains_parent_reference,
};
use vstd::prelude::*;
use vstd::string::*;
use vstd::utf8::*;

verus! {

/// What a resolution asks of the file system.
pub enum FsRequest<P> {
    /// The canonical, absolute form of the path, with all symlinks resolved.
    Canonicalize(P),
    /// What stands at the path, without following a symlink there.
    Inspect(P),
}

/// What the file system answers.
pub enum FsReply<P, T> {
    /// The canonical form of the path.
    Canonical(P),
    /// The path has no canonical form, for the reason given.
    CanonicalFailed(T),
    /// Something stands at the path.
    Present { is_symlink: bool },
    /// Nothing stands at the path.
    Missing,
    /// The path could not be looked at, for the reason given.
    InspectFailed(T),
}

/// How a resolution goes on.
pub enum Step<S, P, T> {
    /// It asks for the next thing.
    Continue(S),
    /// It ends with a result.
    Found(P),
    /// It ends with an error.
    Refused(T),
}

impl<P: DeepView> DeepView for FsRequest<P> {
    type V = FsRequest<P::V>;

    open spec fn deep_view(&self) -> FsRequest<P::V> {
        match self {
            FsRequest::Canonicalize(path) => FsRequest::Canonicalize(path.deep_view()),
            FsRequest::Inspect(path) => FsRequest::Inspect(path.deep_view()),
        }
    }
}

impl<P: DeepView, T: DeepView> DeepView for FsReply<P, T> {
    type V = FsReply<P::V, T::V>;

    open spec fn deep_view(&self) -> FsReply<P::V, T::V> {
        match self {
            FsReply::Canonical(path) => FsReply::Canonical(path.deep_view()),
            FsReply::CanonicalFailed(error) => FsReply::CanonicalFailed(error.deep_view()),
            FsReply::Present { is_symlink } => FsReply::Present { is_symlink: *is_symlink },
            FsReply::Missing => FsReply::Missing,
            FsReply::InspectFailed(error) => FsReply::InspectFailed(error.deep_view()),
        }
    }
}

impl<S: DeepView, P: DeepView, T: DeepView> DeepView for Step<S, P, T> {
    type V = Step<S::V, P::V, T::V>;

    open spec fn deep_view(&self) -> Step<S::V, P::V, T::V> {
        match self {
            Step::Continue(state) => Step::Continue(state.deep_view()),
            Step::Found(path) => Step::Found(path.deep_view()),
            Step::Refused(error) => Step::Refused(error.deep_view()),
        }
    }
}

/// The canonical form that a reply gives, or the reason why there is none. A reply
/// that speaks of something else gives none, and no reason.
pub open spec fn canonical_form(reply: FsReply<Seq<u8>, Seq<char>>) -> Result<Seq<u8>, Seq<char>> {
    match reply {
        FsReply::Canonical(path) => Ok(path),
        FsReply::CanonicalFailed(error) => Err(error),
        _ => Err(Seq::empty()),
    }
}

/// What a reply says of an entry: whether it is a symlink where there is one, nothing
/// where there is none, or the reason why that is not known. A reply that speaks of
/// something else says nothing, and gives no reason.
pub open spec fn entry_form(reply: FsReply<Seq<u8>, Seq<char>>) -> Result<Option<bool>, Seq<char>> {
    match reply {
        FsReply::Present { is_symlink } => Ok(Some(is_symlink)),
        FsReply::Missing => Ok(None),
        FsReply::InspectFailed(error) => Err(error),
        _ => Err(Seq::empty()),
    }
}

/// Reads a reply as the canonical form that was asked for.
pub(crate) fn canonical_result(reply: FsReply<PosixPath, String>) -> (result: Result<
    PosixPath,
    String,
>)
    ensures
        match result {
            Ok(path) => canonical_form(reply.deep_view()) == Ok::<Seq<u8>, Seq<char>>(path@),
            Err(error) => canonical_form(reply.deep_view()) == Err::<Seq<u8>, Seq<char>>(error@),
        },
{
    match reply {
        FsReply::Canonical(path) => Ok(path),
        FsReply::CanonicalFailed(error) => Err(error),
        _ => Err(String::new()),
    }
}

/// Reads a reply as the entry that was asked for.
pub(crate) fn entry_result(reply: FsReply<PosixPath, String>) -> (result: Result<
    Option<bool>,
    String,
>)
    ensures
        match result {
            Ok(entry) => entry_form(reply.deep_view()) == Ok::<Option<bool>, Seq<char>>(entry),
            Err(error) => entry_form(reply.deep_view()) == Err::<Option<bool>, Seq<char>>(error@),
        },
{
    match reply {
        FsReply::Present { is_symlink } => Ok(Some(is_symlink)),
        FsReply::Missing => Ok(None),
        FsReply::InspectFailed(error) => Err(error),
        _ => Err(String::new()),
    }
}

/// The error for a workspace without a canonical form.
pub open spec fn workspace_error(workspace: Seq<u8>, error: Seq<char>) -> Seq<char> {
    "Failed to resolve workspace path (workspace: "@ + text::as_text(workspace) + "): "@ + error
}

/// The error for a requested path without a canonical form.
pub open spec fn resolve_error(
    workspace: Seq<u8>,
    user_path: Seq<char>,
    candidate: Seq<u8>,
    error: Seq<char>,
) -> Seq<char> {
    "Failed to resolve file path (workspace: "@ + text::as_text(workspace)
        + ", requested_path: "@ + user_path + ", candidate_path: "@ + text::as_text(candidate)
        + "): "@ + error
}

/// What becomes of a workspace whose canonical form has been asked for.
pub fn resolve_workspace_path(
    workspace: &PosixPath,
    canonical: Result<PosixPath, String>,
) -> (result: Result<PosixPath, String>)
    ensures
        canonical matches Ok(path) ==> (result matches Ok(resolved) && resolved@ == path@),
        canonical matches Err(error) ==> (result matches Err(message) && message@
            == workspace_error(workspace@, error@)),
{
    match canonical {
        Ok(path) => Ok(path),
        Err(error) => {
            let mut message = "Failed to resolve workspace path (workspace: ".to_string();
            message.append(workspace.display().as_str());
            message.append("): ");
            message.append(error.as_str());
            Err(message)
        },
    }
}

/// Writes the error for a requested path without a canonical form.
pub(crate) fn resolve_failure(
    workspace: &PosixPath,
    user_path: &str,
    candidate: &PosixPath,
    error: &str,
) -> (message: String)
    ensures
        message@ == resolve_error(workspace@, user_path@, candidate@, error@),
{
    let mut message = "Failed to resolve file path (workspace: ".to_string();
    message.append(workspace.display().as_str());
    message.append(", requested_path: ");
    message.append(user_path);
    message.append(", candidate_path: ");
    message.append(candidate.display().as_str());
    message.append("): ");
    message.append(error);
    message
}

/// The resolution of a path that is to be read: first of the workspace, and once that
/// is resolved, of the path.
pub struct ReadResolution<P, T> {
    pub workspace: P,
    pub user_path: T,
    pub resolved_workspace: Option<P>,
}

/// The model of a resolution for reading.
pub type ReadModel = ReadResolution<Seq<u8>, Seq<char>>;

impl<P: DeepView, T: DeepView> DeepView for ReadResolution<P, T> {
    type V = ReadResolution<P::V, T::V>;

    open spec fn deep_view(&self) -> ReadResolution<P::V, T::V> {
        ReadResolution {
            workspace: self.workspace.deep_view(),
            user_path: self.user_path.deep_view(),
            resolved_workspace: self.resolved_workspace.deep_view(),
        }
    }
}

impl ReadResolution<Seq<u8>, Seq<char>> {
    /// The start of a resolution.
    pub open spec fn start(workspace: Seq<u8>, user_path: Seq<char>) -> ReadModel {
        ReadResolution { workspace, user_path, resolved_workspace: None }
    }

    /// The requested path, taken from the workspace.
    pub open spec fn candidate(self) -> Seq<u8> {
        path::join(self.workspace, encode_utf8(self.user_path))
    }

    /// True when the requested path, as written, leads through a parent directory.
    pub open spec fn climbs(self) -> bool {
        path::contains_parent_reference(encode_utf8(self.user_path))
    }

    /// What the resolution asks for.
    pub open spec fn asks(self) -> FsRequest<Seq<u8>> {
        match self.resolved_workspace {
            None => FsRequest::Canonicalize(self.workspace),
            Some(_) => FsRequest::Canonicalize(self.candidate()),
        }
    }

    /// How the resolution goes on after the canonical form, or the reason why there
    /// is none.
    ///
    /// A path that does not climb must lie in the workspace as written, and may then
    /// lead out of it through symlinks. One that climbs must lie in the resolved
    /// workspace once it is resolved itself.
    pub open spec fn after(self, canonical: Result<Seq<u8>, Seq<char>>) -> Step<
        ReadModel,
        Seq<u8>,
        Seq<char>,
    > {
        match (self.resolved_workspace, canonical) {
            (None, Err(error)) => Step::Refused(workspace_error(self.workspace, error)),
            (None, Ok(resolved)) => if !self.climbs() && !workspace::in_namespace(
                self.workspace,
                resolved,
                self.candidate(),
            ) {
                Step::Refused(
                    workspace::outside_namespace_error(self.workspace, resolved, self.candidate()),
                )
            } else {
                Step::Continue(ReadResolution { resolved_workspace: Some(resolved), ..self })
            },
            (Some(_), Err(error)) => Step::Refused(
                resolve_error(self.workspace, self.user_path, self.candidate(), error),
            ),
            (Some(resolved), Ok(target)) => if self.climbs() && !path::starts_with(
                target,
                resolved,
            ) {
                Step::Refused(workspace::outside_error(resolved, target))
            } else {
                Step::Found(target)
            },
        }
    }
}

/// Starts to resolve an existing read target reachable from the workspace namespace.
pub fn resolve_read_path(workspace: &PosixPath, user_path: &str) -> (resolution: ReadResolution<
    PosixPath,
    String,
>)
    ensures
        resolution.deep_view() == ReadResolution::start(workspace@, user_path@),
{
    ReadResolution {
        workspace: workspace.clone(),
        user_path: user_path.to_string(),
        resolved_workspace: None,
    }
}

impl ReadResolution<PosixPath, String> {
    /// What the resolution asks for.
    pub fn request(&self) -> (request: FsRequest<PosixPath>)
        ensures
            request.deep_view() == self.deep_view().asks(),
    {
        match &self.resolved_workspace {
            None => FsRequest::Canonicalize(self.workspace.clone()),
            Some(_) => FsRequest::Canonicalize(
                self.workspace.join_bytes(self.user_path.as_str().as_bytes()),
            ),
        }
    }

    /// Takes the answer to what the resolution asked for.
    pub fn reply(self, reply: FsReply<PosixPath, String>) -> (step: Step<
        ReadResolution<PosixPath, String>,
        PosixPath,
        String,
    >)
        ensures
            step.deep_view() == self.deep_view().after(canonical_form(reply.deep_view())),
    {
        let canonical = canonical_result(reply);
        let requested = PosixPath::from_text(self.user_path.as_str());
        let candidate = self.workspace.join(&requested);
        let climbs = path_contains_parent_reference(&requested);
        match self.resolved_workspace {
            None => {
                let resolved = match resolve_workspace_path(&self.workspace, canonical) {
                    Ok(resolved) => resolved,
                    Err(error) => {
                        return Step::Refused(error);
                    },
                };
                if !climbs {
                    if let Err(error) = ensure_path_in_workspace_namespace(
                        &self.workspace,
                        &resolved,
                        &candidate,
                    ) {
                        return Step::Refused(error);
                    }
                }
                Step::Continue(
                    ReadResolution {
                        workspace: self.workspace,
                        user_path: self.user_path,
                        resolved_workspace: Some(resolved),
                    },
                )
            },
            Some(resolved) => {
                let target = match canonical {
                    Ok(target) => target,
                    Err(error) => {
                        return Step::Refused(
                            resolve_failure(
                                &self.workspace,
                                self.user_path.as_str(),
                                &candidate,
                                error.as_str(),
                            ),
                        );
                    },
                };
                if climbs {
                    if let Err(error) = ensure_path_in_workspace(&resolved, &target) {
                        return Step::Refused(error);
                    }
                }
                Step::Found(target)
            },
        }
    }
}

} // verus!
