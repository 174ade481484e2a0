//! Resolving a path against several workspaces.
use crate::path;
use crate::path::PosixPath;
use crate::resolve;
use crate::resolve::{entry_result, resolve_read_path, FsReply, FsRequest, ReadResolution, Step};
use crate::resolve_write::{resolve_write_path, WriteResolution};
use crate::text;
use crate::workspace;
use crate::workspace::workspace_access_error;
use vstd::prelude::*;
use vstd::string::*;
use vstd::utf8::*;

verus! {

/// A resolved path and the workspace that it was resolved against.
#[derive(Debug, Clone)]
pub struct ResolvedFilePath<P> {
    pub workspace: P,
    pub path: P,
}

/// The model of a resolved path.
pub type ResolvedModel = ResolvedFilePath<Seq<u8>>;

impl<P: DeepView> DeepView for ResolvedFilePath<P> {
    type V = ResolvedFilePath<P::V>;

    open spec fn deep_view(&self) -> ResolvedFilePath<P::V> {
        ResolvedFilePath { workspace: self.workspace.deep_view(), path: self.path.deep_view() }
    }
}

/// The error of one workspace, as it is listed in the error of the search.
pub open spec fn listed_error(workspace: Seq<u8>, error: Seq<char>) -> Seq<char> {
    text::as_text(workspace) + ": "@ + error
}

/// The error of a search that no workspace could serve.
pub open spec fn search_error(
    workspaces: Seq<Seq<u8>>,
    user_path: Seq<char>,
    errors: Seq<Seq<char>>,
) -> Seq<char> {
    workspace::access_error("Path"@, "requested_path"@, user_path, workspaces, errors)
}

/// Writes the error of one workspace as it is listed in the error of the search.
fn list_error(workspace: &PosixPath, error: &str) -> (listed: String)
    ensures
        listed@ == listed_error(workspace@, error@),
{
    let mut listed = workspace.display();
    listed.append(": ");
    listed.append(error);
    listed
}

/// Writes the error of a search that no workspace could serve.
fn search_failure(workspaces: &Vec<PosixPath>, user_path: &str, errors: &Vec<String>) -> (error:
    String)
    ensures
        error@ == search_error(workspaces.deep_view(), user_path@, errors.deep_view()),
{
    assert(path::path_bytes(workspaces@) == workspaces.deep_view());
    assert(text::texts(errors@) == errors.deep_view());
    workspace_access_error("Path", "requested_path", user_path, workspaces.as_slice(), errors)
}

/// Copies the list of workspaces.
fn copy_workspaces(workspaces: &[PosixPath]) -> (copy: Vec<PosixPath>)
    ensures
        copy.deep_view() == path::path_bytes(workspaces@),
        copy.deep_view().len() <= usize::MAX,
{
    let mut copy: Vec<PosixPath> = Vec::new();
    let ghost all = path::path_bytes(workspaces@);
    let mut i: usize = 0;
    while i < workspaces.len()
        invariant
            i <= workspaces@.len(),
            all == path::path_bytes(workspaces@),
            copy.deep_view() == all.take(i as int),
        decreases workspaces@.len() - i,
    {
        let ghost before = copy.deep_view();
        copy.push(workspaces[i].clone());
        assert(copy.deep_view() == before.push(all[i as int]));
        assert(all.take(i + 1) == all.take(i as int).push(all[i as int]));
        i += 1;
    }
    assert(all.take(i as int) == all);
    assert(copy.deep_view().len() == copy.len());
    copy
}

/// The search of several workspaces for a path that is to be read. The workspace at
/// `index` is being tried; `errors` are those of the workspaces before it.
pub struct ReadSearch<P, T, L, E> {
    pub workspaces: L,
    pub user_path: T,
    pub index: usize,
    pub errors: E,
    pub resolution: ReadResolution<P, T>,
}

/// The model of a search for reading.
pub type ReadSearchModel = ReadSearch<Seq<u8>, Seq<char>, Seq<Seq<u8>>, Seq<Seq<char>>>;

impl<P: DeepView, T: DeepView, L: DeepView, E: DeepView> DeepView for ReadSearch<P, T, L, E> {
    type V = ReadSearch<P::V, T::V, L::V, E::V>;

    open spec fn deep_view(&self) -> ReadSearch<P::V, T::V, L::V, E::V> {
        ReadSearch {
            workspaces: self.workspaces.deep_view(),
            user_path: self.user_path.deep_view(),
            index: self.index,
            errors: self.errors.deep_view(),
            resolution: self.resolution.deep_view(),
        }
    }
}

impl ReadSearch<Seq<u8>, Seq<char>, Seq<Seq<u8>>, Seq<Seq<char>>> {
    /// The workspace that is being tried is one of the list.
    pub open spec fn wf(self) -> bool {
        self.index < self.workspaces.len() <= usize::MAX
    }

    /// The search from the workspace at `index` on: it ends where there is none.
    pub open spec fn resume(
        workspaces: Seq<Seq<u8>>,
        user_path: Seq<char>,
        index: usize,
        errors: Seq<Seq<char>>,
    ) -> Step<ReadSearchModel, ResolvedModel, Seq<char>> {
        if index < workspaces.len() {
            Step::Continue(
                ReadSearch {
                    workspaces,
                    user_path,
                    index,
                    errors,
                    resolution: ReadResolution::start(workspaces[index as int], user_path),
                },
            )
        } else {
            Step::Refused(search_error(workspaces, user_path, errors))
        }
    }

    /// The search from the first workspace on.
    pub open spec fn start(workspaces: Seq<Seq<u8>>, user_path: Seq<char>) -> Step<
        ReadSearchModel,
        ResolvedModel,
        Seq<char>,
    > {
        ReadSearch::resume(workspaces, user_path, 0, Seq::empty())
    }

    /// What the search asks for.
    pub open spec fn asks(self) -> FsRequest<Seq<u8>> {
        self.resolution.asks()
    }

    /// How the search goes on: it ends with the first workspace that serves the path,
    /// and lists the errors of the others.
    pub open spec fn after(self, reply: FsReply<Seq<u8>, Seq<char>>) -> Step<
        ReadSearchModel,
        ResolvedModel,
        Seq<char>,
    > {
        let workspace = self.workspaces[self.index as int];
        match self.resolution.after(resolve::canonical_form(reply)) {
            Step::Continue(resolution) => Step::Continue(ReadSearch { resolution, ..self }),
            Step::Found(path) => Step::Found(ResolvedFilePath { workspace, path }),
            Step::Refused(error) => ReadSearch::resume(
                self.workspaces,
                self.user_path,
                (self.index + 1) as usize,
                self.errors.push(listed_error(workspace, error)),
            ),
        }
    }
}

/// Goes on with the workspace at `index`, where there is one.
fn resume_read_search(
    workspaces: Vec<PosixPath>,
    user_path: String,
    index: usize,
    errors: Vec<String>,
) -> (step: Step<
    ReadSearch<PosixPath, String, Vec<PosixPath>, Vec<String>>,
    ResolvedFilePath<PosixPath>,
    String,
>)
    ensures
        step.deep_view() == ReadSearch::resume(
            workspaces.deep_view(),
            user_path@,
            index,
            errors.deep_view(),
        ),
{
    if index < workspaces.len() {
        let resolution = resolve_read_path(&workspaces[index], user_path.as_str());
        Step::Continue(ReadSearch { workspaces, user_path, index, errors, resolution })
    } else {
        Step::Refused(search_failure(&workspaces, user_path.as_str(), &errors))
    }
}

/// Starts to resolve a read target against the workspaces in turn.
pub fn resolve_read_path_in_workspaces(workspaces: &[PosixPath], user_path: &str) -> (step: Step<
    ReadSearching,
    ResolvedFilePath<PosixPath>,
    String,
>)
    ensures
        step.deep_view() == ReadSearch::start(path::path_bytes(workspaces@), user_path@),
{
    let errors: Vec<String> = Vec::new();
    assert(errors.deep_view() == Seq::<Seq<char>>::empty());
    ReadSearching::wrap(
        resume_read_search(copy_workspaces(workspaces), user_path.to_string(), 0, errors),
    )
}

impl ReadSearch<PosixPath, String, Vec<PosixPath>, Vec<String>> {
    /// What the search asks for.
    fn ask(&self) -> (request: FsRequest<PosixPath>)
        ensures
            request.deep_view() == self.deep_view().asks(),
    {
        self.resolution.request()
    }

    /// Takes the answer to what the search asked for.
    fn advance(self, reply: FsReply<PosixPath, String>) -> (step: Step<
        ReadSearch<PosixPath, String, Vec<PosixPath>, Vec<String>>,
        ResolvedFilePath<PosixPath>,
        String,
    >)
        requires
            self.deep_view().wf(),
        ensures
            step.deep_view() == self.deep_view().after(reply.deep_view()),
            step matches Step::Continue(search) ==> search.deep_view().wf(),
    {
        match self.resolution.reply(reply) {
            Step::Continue(resolution) => Step::Continue(
                ReadSearch {
                    workspaces: self.workspaces,
                    user_path: self.user_path,
                    index: self.index,
                    errors: self.errors,
                    resolution,
                },
            ),
            Step::Found(path) => Step::Found(
                ResolvedFilePath { workspace: self.workspaces[self.index].clone(), path },
            ),
            Step::Refused(error) => {
                let mut errors = self.errors;
                let ghost before = errors.deep_view();
                errors.push(list_error(&self.workspaces[self.index], error.as_str()));
                assert(errors.deep_view() == before.push(
                    listed_error(self.workspaces.deep_view()[self.index as int], error@),
                ));
                assert(self.index < self.workspaces.len());
                resume_read_search(self.workspaces, self.user_path, self.index + 1, errors)
            },
        }
    }
}

/// A search of several workspaces for a path that is to be read, while it runs.
pub struct ReadSearching {
    search: ReadSearch<PosixPath, String, Vec<PosixPath>, Vec<String>>,
}

impl DeepView for ReadSearching {
    type V = ReadSearchModel;

    closed spec fn deep_view(&self) -> ReadSearchModel {
        self.search.deep_view()
    }
}

impl ReadSearching {
    #[verifier::type_invariant]
    spec fn invariant_holds(self) -> bool {
        self.search.deep_view().wf()
    }

    fn wrap(
        step: Step<ReadSearch<PosixPath, String, Vec<PosixPath>, Vec<String>>, ResolvedFilePath<PosixPath>, String>,
    ) -> (result: Step<ReadSearching, ResolvedFilePath<PosixPath>, String>)
        requires
            step matches Step::Continue(search) ==> search.deep_view().wf(),
        ensures
            result.deep_view() == step.deep_view(),
    {
        match step {
            Step::Continue(search) => Step::Continue(ReadSearching { search }),
            Step::Found(found) => Step::Found(found),
            Step::Refused(error) => Step::Refused(error),
        }
    }

    /// What the search asks for.
    pub fn request(&self) -> (request: FsRequest<PosixPath>)
        ensures
            request.deep_view() == self.deep_view().asks(),
            self.deep_view().wf(),
    {
        proof {
            use_type_invariant(self);
        }
        self.search.ask()
    }

    /// Takes the answer to what the search asked for.
    pub fn reply(self, reply: FsReply<PosixPath, String>) -> (step: Step<
        ReadSearching,
        ResolvedFilePath<PosixPath>,
        String,
    >)
        ensures
            step.deep_view() == self.deep_view().after(reply.deep_view()),
            self.deep_view().wf(),
    {
        proof {
            use_type_invariant(&self);
        }
        Self::wrap(self.search.advance(reply))
    }
}

/// How far the search of several workspaces for a path that is to be written has come.
pub enum WriteSearchPhase<P, T, L, E> {
    /// The relative path is looked for in the workspace at `index`.
    Probing { index: usize },
    /// The path exists in the workspace at `index` and is resolved there and nowhere
    /// else.
    Chosen { index: usize, resolution: WriteResolution<P, T, L> },
    /// The workspace at `index` is tried; `errors` are those of the workspaces before.
    Trying { index: usize, errors: E, resolution: WriteResolution<P, T, L> },
}

/// The search of several workspaces for a path that is to be written.
pub struct WriteSearch<P, T, L, E> {
    pub workspaces: L,
    pub user_path: T,
    pub phase: WriteSearchPhase<P, T, L, E>,
}

/// The model of a search for writing.
pub type WriteSearchModel = WriteSearch<Seq<u8>, Seq<char>, Seq<Seq<u8>>, Seq<Seq<char>>>;

/// The model of a phase of a search for writing.
pub type WriteSearchPhaseModel = WriteSearchPhase<
    Seq<u8>,
    Seq<char>,
    Seq<Seq<u8>>,
    Seq<Seq<char>>,
>;

impl<P: DeepView, T: DeepView, L: DeepView, E: DeepView> DeepView for WriteSearchPhase<P, T, L, E> {
    type V = WriteSearchPhase<P::V, T::V, L::V, E::V>;

    open spec fn deep_view(&self) -> WriteSearchPhase<P::V, T::V, L::V, E::V> {
        match self {
            WriteSearchPhase::Probing { index } => WriteSearchPhase::Probing { index: *index },
            WriteSearchPhase::Chosen { index, resolution } => WriteSearchPhase::Chosen {
                index: *index,
                resolution: resolution.deep_view(),
            },
            WriteSearchPhase::Trying { index, errors, resolution } => WriteSearchPhase::Trying {
                index: *index,
                errors: errors.deep_view(),
                resolution: resolution.deep_view(),
            },
        }
    }
}

impl<P: DeepView, T: DeepView, L: DeepView, E: DeepView> DeepView for WriteSearch<P, T, L, E> {
    type V = WriteSearch<P::V, T::V, L::V, E::V>;

    open spec fn deep_view(&self) -> WriteSearch<P::V, T::V, L::V, E::V> {
        WriteSearch {
            workspaces: self.workspaces.deep_view(),
            user_path: self.user_path.deep_view(),
            phase: self.phase.deep_view(),
        }
    }
}

/// The error for a requested path that could not be looked for in a workspace.
pub open spec fn probe_error(
    workspace: Seq<u8>,
    user_path: Seq<char>,
    candidate: Seq<u8>,
    error: Seq<char>,
) -> Seq<char> {
    "Failed to inspect file path (workspace: "@ + text::as_text(workspace)
        + ", requested_path: "@ + user_path + ", candidate_path: "@ + text::as_text(candidate)
        + "): "@ + error
}

impl WriteSearch<Seq<u8>, Seq<char>, Seq<Seq<u8>>, Seq<Seq<char>>> {
    /// The index of the workspace that the search is at.
    pub open spec fn index(self) -> usize {
        match self.phase {
            WriteSearchPhase::Probing { index } => index,
            WriteSearchPhase::Chosen { index, .. } => index,
            WriteSearchPhase::Trying { index, .. } => index,
        }
    }

    /// The workspace that the search is at is one of the list.
    pub open spec fn wf(self) -> bool {
        self.index() < self.workspaces.len() <= usize::MAX
    }

    /// The requested path, taken from the workspace that the search is at.
    pub open spec fn candidate(self) -> Seq<u8> {
        path::join(self.workspaces[self.index() as int], encode_utf8(self.user_path))
    }

    /// The trying of the workspaces from `index` on: it ends where there is none.
    pub open spec fn trying(
        workspaces: Seq<Seq<u8>>,
        user_path: Seq<char>,
        index: usize,
        errors: Seq<Seq<char>>,
    ) -> Step<WriteSearchModel, ResolvedModel, Seq<char>> {
        if index < workspaces.len() {
            Step::Continue(
                WriteSearch {
                    workspaces,
                    user_path,
                    phase: WriteSearchPhase::Trying {
                        index,
                        errors,
                        resolution: WriteResolution::start(workspaces[index as int], user_path),
                    },
                },
            )
        } else {
            Step::Refused(search_error(workspaces, user_path, errors))
        }
    }

    /// The looking for a relative path from the workspace at `index` on, and the
    /// trying of all workspaces where it is in none.
    pub open spec fn probing(
        workspaces: Seq<Seq<u8>>,
        user_path: Seq<char>,
        index: usize,
    ) -> Step<WriteSearchModel, ResolvedModel, Seq<char>> {
        if index < workspaces.len() {
            Step::Continue(
                WriteSearch { workspaces, user_path, phase: WriteSearchPhase::Probing { index } },
            )
        } else {
            WriteSearch::trying(workspaces, user_path, 0, Seq::empty())
        }
    }

    /// The search from the first workspace on.
    pub open spec fn start(workspaces: Seq<Seq<u8>>, user_path: Seq<char>) -> Step<
        WriteSearchModel,
        ResolvedModel,
        Seq<char>,
    > {
        if path::is_absolute(encode_utf8(user_path)) {
            WriteSearch::trying(workspaces, user_path, 0, Seq::empty())
        } else {
            WriteSearch::probing(workspaces, user_path, 0)
        }
    }

    /// What the search asks for.
    pub open spec fn asks(self) -> FsRequest<Seq<u8>> {
        match self.phase {
            WriteSearchPhase::Probing { .. } => FsRequest::Inspect(self.candidate()),
            WriteSearchPhase::Chosen { resolution, .. } => resolution.asks(),
            WriteSearchPhase::Trying { resolution, .. } => resolution.asks(),
        }
    }

    /// How the search goes on.
    ///
    /// A relative path that exists in a workspace is resolved in the first such one.
    /// Otherwise the search ends with the first workspace that serves the path, and
    /// lists the errors of the others.
    pub open spec fn after(self, reply: FsReply<Seq<u8>, Seq<char>>) -> Step<
        WriteSearchModel,
        ResolvedModel,
        Seq<char>,
    > {
        let workspace = self.workspaces[self.index() as int];
        match self.phase {
            WriteSearchPhase::Probing { index } => match resolve::entry_form(reply) {
                Ok(Some(_)) => Step::Continue(
                    WriteSearch {
                        phase: WriteSearchPhase::Chosen {
                            index,
                            resolution: WriteResolution::start(workspace, self.user_path),
                        },
                        ..self
                    },
                ),
                Ok(None) => WriteSearch::probing(
                    self.workspaces,
                    self.user_path,
                    (index + 1) as usize,
                ),
                Err(error) => Step::Refused(
                    probe_error(workspace, self.user_path, self.candidate(), error),
                ),
            },
            WriteSearchPhase::Chosen { index, resolution } => match resolution.after(reply) {
                Step::Continue(resolution) => Step::Continue(
                    WriteSearch {
                        phase: WriteSearchPhase::Chosen { index, resolution },
                        ..self
                    },
                ),
                Step::Found(path) => Step::Found(ResolvedFilePath { workspace, path }),
                Step::Refused(error) => Step::Refused(error),
            },
            WriteSearchPhase::Trying { index, errors, resolution } => match resolution.after(
                reply,
            ) {
                Step::Continue(resolution) => Step::Continue(
                    WriteSearch {
                        phase: WriteSearchPhase::Trying { index, errors, resolution },
                        ..self
                    },
                ),
                Step::Found(path) => Step::Found(ResolvedFilePath { workspace, path }),
                Step::Refused(error) => WriteSearch::trying(
                    self.workspaces,
                    self.user_path,
                    (index + 1) as usize,
                    errors.push(listed_error(workspace, error)),
                ),
            },
        }
    }
}

/// Goes on with trying the workspace at `index`, where there is one.
fn try_write_search(
    workspaces: Vec<PosixPath>,
    user_path: String,
    index: usize,
    errors: Vec<String>,
) -> (step: Step<
    WriteSearch<PosixPath, String, Vec<PosixPath>, Vec<String>>,
    ResolvedFilePath<PosixPath>,
    String,
>)
    ensures
        step.deep_view() == WriteSearch::trying(
            workspaces.deep_view(),
            user_path@,
            index,
            errors.deep_view(),
        ),
{
    if index < workspaces.len() {
        let resolution = resolve_write_path(&workspaces[index], user_path.as_str());
        Step::Continue(
            WriteSearch {
                workspaces,
                user_path,
                phase: WriteSearchPhase::Trying { index, errors, resolution },
            },
        )
    } else {
        Step::Refused(search_failure(&workspaces, user_path.as_str(), &errors))
    }
}

/// Goes on with looking for a relative path in the workspace at `index`, where there
/// is one.
fn probe_write_search(workspaces: Vec<PosixPath>, user_path: String, index: usize) -> (step: Step<
    WriteSearch<PosixPath, String, Vec<PosixPath>, Vec<String>>,
    ResolvedFilePath<PosixPath>,
    String,
>)
    ensures
        step.deep_view() == WriteSearch::probing(workspaces.deep_view(), user_path@, index),
{
    if index < workspaces.len() {
        Step::Continue(
            WriteSearch { workspaces, user_path, phase: WriteSearchPhase::Probing { index } },
        )
    } else {
        let errors: Vec<String> = Vec::new();
        assert(errors.deep_view() == Seq::<Seq<char>>::empty());
        try_write_search(workspaces, user_path, 0, errors)
    }
}

/// Starts to resolve a write target against the workspaces.
pub fn resolve_write_path_in_workspaces(workspaces: &[PosixPath], user_path: &str) -> (step: Step<
    WriteSearching,
    ResolvedFilePath<PosixPath>,
    String,
>)
    ensures
        step.deep_view() == WriteSearch::start(path::path_bytes(workspaces@), user_path@),
{
    let copy = copy_workspaces(workspaces);
    let step = if PosixPath::from_text(user_path).is_relative() {
        probe_write_search(copy, user_path.to_string(), 0)
    } else {
        let errors: Vec<String> = Vec::new();
        assert(errors.deep_view() == Seq::<Seq<char>>::empty());
        try_write_search(copy, user_path.to_string(), 0, errors)
    };
    WriteSearching::wrap(step)
}

impl WriteSearch<PosixPath, String, Vec<PosixPath>, Vec<String>> {
    /// What the search asks for.
    fn ask(&self) -> (request: FsRequest<PosixPath>)
        requires
            self.deep_view().wf(),
        ensures
            request.deep_view() == self.deep_view().asks(),
    {
        match &self.phase {
            WriteSearchPhase::Probing { index } => FsRequest::Inspect(
                self.workspaces[*index].join_bytes(self.user_path.as_str().as_bytes()),
            ),
            WriteSearchPhase::Chosen { resolution, .. } => resolution.request(),
            WriteSearchPhase::Trying { resolution, .. } => resolution.request(),
        }
    }

    /// Takes the answer to what the search asked for.
    fn advance(self, reply: FsReply<PosixPath, String>) -> (step: Step<
        WriteSearch<PosixPath, String, Vec<PosixPath>, Vec<String>>,
        ResolvedFilePath<PosixPath>,
        String,
    >)
        requires
            self.deep_view().wf(),
        ensures
            step.deep_view() == self.deep_view().after(reply.deep_view()),
            step matches Step::Continue(search) ==> search.deep_view().wf(),
    {
        let workspaces = self.workspaces;
        let user_path = self.user_path;
        match self.phase {
            WriteSearchPhase::Probing { index } => match entry_result(reply) {
                Ok(Some(_)) => {
                    let resolution = resolve_write_path(&workspaces[index], user_path.as_str());
                    Step::Continue(
                        WriteSearch {
                            workspaces,
                            user_path,
                            phase: WriteSearchPhase::Chosen { index, resolution },
                        },
                    )
                },
                Ok(None) => probe_write_search(workspaces, user_path, index + 1),
                Err(error) => {
                    let candidate = workspaces[index].join_bytes(user_path.as_str().as_bytes());
                    let mut message = "Failed to inspect file path (workspace: ".to_string();
                    message.append(workspaces[index].display().as_str());
                    message.append(", requested_path: ");
                    message.append(user_path.as_str());
                    message.append(", candidate_path: ");
                    message.append(candidate.display().as_str());
                    message.append("): ");
                    message.append(error.as_str());
                    Step::Refused(message)
                },
            },
            WriteSearchPhase::Chosen { index, resolution } => match resolution.reply(reply) {
                Step::Continue(resolution) => Step::Continue(
                    WriteSearch {
                        workspaces,
                        user_path,
                        phase: WriteSearchPhase::Chosen { index, resolution },
                    },
                ),
                Step::Found(path) => Step::Found(
                    ResolvedFilePath { workspace: workspaces[index].clone(), path },
                ),
                Step::Refused(error) => Step::Refused(error),
            },
            WriteSearchPhase::Trying { index, errors, resolution } => match resolution.reply(
                reply,
            ) {
                Step::Continue(resolution) => Step::Continue(
                    WriteSearch {
                        workspaces,
                        user_path,
                        phase: WriteSearchPhase::Trying { index, errors, resolution },
                    },
                ),
                Step::Found(path) => Step::Found(
                    ResolvedFilePath { workspace: workspaces[index].clone(), path },
                ),
                Step::Refused(error) => {
                    let mut errors = errors;
                    let ghost before = errors.deep_view();
                    errors.push(list_error(&workspaces[index], error.as_str()));
                    assert(errors.deep_view() == before.push(
                        listed_error(workspaces.deep_view()[index as int], error@),
                    ));
                    assert(index < workspaces.len());
                    try_write_search(workspaces, user_path, index + 1, errors)
                },
            },
        }
    }
}

/// A search of several workspaces for a path that is to be written, while it runs.
pub struct WriteSearching {
    search: WriteSearch<PosixPath, String, Vec<PosixPath>, Vec<String>>,
}

impl DeepView for WriteSearching {
    type V = WriteSearchModel;

    closed spec fn deep_view(&self) -> WriteSearchModel {
        self.search.deep_view()
    }
}

impl WriteSearching {
    #[verifier::type_invariant]
    spec fn invariant_holds(self) -> bool {
        self.search.deep_view().wf()
    }

    fn wrap(
        step: Step<WriteSearch<PosixPath, String, Vec<PosixPath>, Vec<String>>, ResolvedFilePath<PosixPath>, String>,
    ) -> (result: Step<WriteSearching, ResolvedFilePath<PosixPath>, String>)
        requires
            step matches Step::Continue(search) ==> search.deep_view().wf(),
        ensures
            result.deep_view() == step.deep_view(),
    {
        match step {
            Step::Continue(search) => Step::Continue(WriteSearching { search }),
            Step::Found(found) => Step::Found(found),
            Step::Refused(error) => Step::Refused(error),
        }
    }

    /// What the search asks for.
    pub fn request(&self) -> (request: FsRequest<PosixPath>)
        ensures
            request.deep_view() == self.deep_view().asks(),
            self.deep_view().wf(),
    {
        proof {
            use_type_invariant(self);
        }
        self.search.ask()
    }

    /// Takes the answer to what the search asked for.
    pub fn reply(self, reply: FsReply<PosixPath, String>) -> (step: Step<
        WriteSearching,
        ResolvedFilePath<PosixPath>,
        String,
    >)
        ensures
            step.deep_view() == self.deep_view().after(reply.deep_view()),
            self.deep_view().wf(),
    {
        proof {
            use_type_invariant(&self);
        }
        Self::wrap(self.search.advance(reply))
    }
}

} // verus!
