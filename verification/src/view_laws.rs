//! The models hold all that the values hold.
use crate::atomic;
use crate::atomic::{AtomicWrite, TempFileWrite, TempPhase, WriteReply, WriteRequest};
use crate::command::{
    Background, BackgroundExit, BackgroundMonitor, BackgroundNotice, CommandRun, Ending, EndingTask,
    ExecArgs, HookTarget, LaunchModel, LaunchPlan, RunPhase, RunReply, RunRequest, RunStep,
};
use crate::output::{ExecOutput, ReaderOutcome};
use crate::path;
use crate::path::PosixPath;
use crate::request;
use crate::resolve::{FsReply, FsRequest, ReadModel, ReadResolution, Step};
use crate::resolve_write::{Ancestor, AncestorSearch, WritePhase, WriteResolution};
use crate::runtime::ShellPlan;
use crate::search::{ReadSearch, ResolvedFilePath, WriteSearch, WriteSearchPhase};
use crate::stream;
use crate::text;
use crate::workspace;
use vstd::prelude::*;
use vstd::utf8::*;

verus! {

/// The text of a string, where there is one.
pub open spec fn text_of_option(text: Option<String>) -> Option<Seq<char>> {
    match text {
        Some(text) => Some(text@),
        None => None,
    }
}

/// The model of a report has each field of the report.
pub proof fn law_view_of_report(output: ExecOutput<String>)
    ensures
        output.deep_view().workspace == text_of_option(output.workspace),
        output.deep_view().process_id == output.process_id,
        output.deep_view().exit_status == text_of_option(output.exit_status),
        output.deep_view().stdout == text_of_option(output.stdout),
        output.deep_view().stderr == text_of_option(output.stderr),
        output.deep_view().raw_output_path == text_of_option(output.raw_output_path),
{
}

/// The models of arguments, notices and reading outcomes have each of their fields.
pub proof fn law_view_of_task(
    args: ExecArgs<String>,
    notice: BackgroundNotice<String>,
    reason: String,
)
    ensures
        args.deep_view().command == args.command@,
        args.deep_view().background == args.background,
        notice.deep_view().target == notice.target,
        notice.deep_view().task_id == notice.task_id@,
        notice.deep_view().output == notice.output.deep_view(),
        ReaderOutcome::<String>::Finished.deep_view() is Finished,
        ReaderOutcome::ReadFailed(reason).deep_view() == ReaderOutcome::<Seq<char>>::ReadFailed(reason@),
        ReaderOutcome::JoinFailed(reason).deep_view() == ReaderOutcome::<Seq<char>>::JoinFailed(reason@),
{
}

proof fn lemma_bytes(bytes: Vec<u8>)
    ensures
        bytes.deep_view() == bytes@,
{
    assert(bytes.deep_view() == bytes@);
}

/// The models of commands and launches have each of their fields, item by item.
pub proof fn law_view_of_launch(launch: LaunchPlan, command: ShellPlan)
    ensures
        launch.deep_view().program == launch.program@,
        launch.deep_view().workspace == launch.workspace@,
        launch.deep_view().clear_env == launch.clear_env,
        launch.deep_view().args.len() == launch.args.len(),
        forall|i: int|
            0 <= i < launch.args.len() ==> #[trigger] launch.deep_view().args[i]
                == launch.args[i]@,
        launch.deep_view().envs.len() == launch.envs.len(),
        forall|i: int|
            0 <= i < launch.envs.len() ==> {
                &&& (#[trigger] launch.deep_view().envs[i]).0 == launch.envs[i].0@
                &&& launch.envs[i].1 is None ==> launch.deep_view().envs[i].1 is None
                &&& launch.envs[i].1 matches Some(value) ==> launch.deep_view().envs[i].1 == Some(
                    value@,
                )
            },
        command.deep_view().program == command.program@,
        command.deep_view().args.len() == command.args.len(),
        forall|i: int|
            0 <= i < command.args.len() ==> #[trigger] command.deep_view().args[i]
                == command.args[i]@,
        command.deep_view().envs.len() == command.envs.len(),
        forall|i: int|
            0 <= i < command.envs.len() ==> {
                &&& (#[trigger] command.deep_view().envs[i]).0 == command.envs[i].0@
                &&& command.envs[i].1 is None ==> command.deep_view().envs[i].1 is None
                &&& command.envs[i].1 matches Some(value) ==> command.deep_view().envs[i].1 == Some(
                    value@,
                )
            },
{
    lemma_bytes(launch.program);
    lemma_bytes(command.program);
    assert forall|i: int| 0 <= i < launch.args.len() implies #[trigger] launch.deep_view().args[i]
        == launch.args[i]@ by {
        lemma_bytes(launch.args[i]);
    }
    assert forall|i: int| 0 <= i < command.args.len() implies #[trigger] command.deep_view().args[i]
        == command.args[i]@ by {
        lemma_bytes(command.args[i]);
    }
    assert forall|i: int| 0 <= i < launch.envs.len() implies {
        &&& (#[trigger] launch.deep_view().envs[i]).0 == launch.envs[i].0@
        &&& launch.envs[i].1 is None ==> launch.deep_view().envs[i].1 is None
        &&& launch.envs[i].1 matches Some(value) ==> launch.deep_view().envs[i].1 == Some(value@)
    } by {
        lemma_bytes(launch.envs[i].0);
        if let Some(value) = launch.envs[i].1 {
            lemma_bytes(value);
        }
    }
    assert forall|i: int| 0 <= i < command.envs.len() implies {
        &&& (#[trigger] command.deep_view().envs[i]).0 == command.envs[i].0@
        &&& command.envs[i].1 is None ==> command.deep_view().envs[i].1 is None
        &&& command.envs[i].1 matches Some(value) ==> command.deep_view().envs[i].1 == Some(value@)
    } by {
        lemma_bytes(command.envs[i].0);
        if let Some(value) = command.envs[i].1 {
            lemma_bytes(value);
        }
    }
}

/// The models of what a run asks and is told have each of their fields.
pub proof fn law_view_of_run(
    launch: LaunchPlan,
    process_id: Option<u32>,
    bytes: Vec<u8>,
    target: HookTarget,
    name: String,
    args: ExecArgs<String>,
    output: ExecOutput<String>,
    run: CommandRun<LaunchPlan, String>,
    monitor: BackgroundMonitor,
    has_json_hook: bool,
    has_typed_hook: bool,
)
    ensures
        RunRequest::<LaunchPlan, Vec<u8>, String>::Spawn(launch).deep_view() == RunRequest::<LaunchModel, Seq<u8>, Seq<char>>::Spawn(
            launch.deep_view(),
        ),
        RunRequest::<LaunchPlan, Vec<u8>, String>::Wait.deep_view() is Wait,
        (RunRequest::<LaunchPlan, Vec<u8>, String>::Capture { process_id, stdout: bytes }).deep_view()
            == (RunRequest::<LaunchModel, Seq<u8>, Seq<char>>::Capture { process_id, stdout: bytes@ }),
        RunRequest::<LaunchPlan, Vec<u8>, String>::FindHooks.deep_view() is FindHooks,
        (RunRequest::<LaunchPlan, Vec<u8>, String>::NotifyStart {
            target,
            task_id: name,
            args,
        }).deep_view() == (RunRequest::<LaunchModel, Seq<u8>, Seq<char>>::NotifyStart {
            target,
            task_id: name@,
            args: args.deep_view(),
        }),
        (RunReply::<String>::Spawned { process_id }).deep_view() == (RunReply::<Seq<char>>::Spawned {
            process_id,
        }),
        RunReply::Failed(name).deep_view() == RunReply::<Seq<char>>::Failed(name@),
        RunReply::Captured(output).deep_view() == RunReply::<Seq<char>>::Captured(output.deep_view()),
        (RunReply::<String>::Hooks { has_json_hook, has_typed_hook }).deep_view() == (
        RunReply::<Seq<char>>::Hooks { has_json_hook, has_typed_hook }),
        RunReply::<String>::Notified.deep_view() is Notified,
        run.deep_view().tool_name == run.tool_name@,
        run.deep_view().launch == run.launch.deep_view(),
        run.deep_view().args == run.args.deep_view(),
        RunPhase::<String>::Spawning.deep_view() is Spawning,
        (RunPhase::<String>::Waiting { process_id }).deep_view() == (RunPhase::<Seq<char>>::Waiting {
            process_id,
        }),
        RunStep::<LaunchPlan, String, BackgroundMonitor>::Continue(run).deep_view()
            == RunStep::<LaunchModel, Seq<char>, Background>::Continue(run.deep_view()),
        RunStep::<LaunchPlan, String, BackgroundMonitor>::Finished(output).deep_view()
            == RunStep::<LaunchModel, Seq<char>, Background>::Finished(output.deep_view()),
        RunStep::<LaunchPlan, String, BackgroundMonitor>::Started(output, monitor).deep_view()
            == RunStep::<LaunchModel, Seq<char>, Background>::Started(output.deep_view(), monitor.deep_view()),
{
    lemma_bytes(bytes);
}

/// The model of what follows from the end of a process has each of its fields.
pub proof fn law_view_of_exit(
    process_id: Option<u32>,
    stdout: Vec<u8>,
    stderr: Vec<u8>,
    ending: EndingTask,
    notice: BackgroundNotice<String>,
)
    ensures
        (BackgroundExit::<Vec<u8>, String, EndingTask>::Capture {
            process_id,
            stdout,
            stderr,
            ending,
        }).deep_view() == (BackgroundExit::<Seq<u8>, Seq<char>, Ending>::Capture {
            process_id,
            stdout: stdout@,
            stderr: stderr@,
            ending: ending.deep_view(),
        }),
        BackgroundExit::<Vec<u8>, String, EndingTask>::End(notice).deep_view()
            == BackgroundExit::<Seq<u8>, Seq<char>, Ending>::End(notice.deep_view()),
{
    lemma_bytes(stdout);
    lemma_bytes(stderr);
}

/// The models of the questions to the file system, of its answers and of what comes of them
/// have each of their fields.
pub proof fn law_view_of_resolution(
    file: PosixPath,
    reason: String,
    is_symlink: bool,
    read: ReadResolution<PosixPath, String>,
    write: WriteResolution<PosixPath, String, Vec<PosixPath>>,
    found: ResolvedFilePath<PosixPath>,
)
    ensures
        FsRequest::Canonicalize(file).deep_view() == FsRequest::<Seq<u8>>::Canonicalize(file@),
        FsRequest::Inspect(file).deep_view() == FsRequest::<Seq<u8>>::Inspect(file@),
        FsReply::<PosixPath, String>::Canonical(file).deep_view() == FsReply::<Seq<u8>, Seq<char>>::Canonical(file@),
        FsReply::<PosixPath, String>::CanonicalFailed(reason).deep_view()
            == FsReply::<Seq<u8>, Seq<char>>::CanonicalFailed(reason@),
        (FsReply::<PosixPath, String>::Present { is_symlink }).deep_view() == (FsReply::<Seq<u8>, Seq<char>>::Present {
            is_symlink,
        }),
        FsReply::<PosixPath, String>::Missing.deep_view() is Missing,
        FsReply::<PosixPath, String>::InspectFailed(reason).deep_view() == FsReply::<Seq<u8>, Seq<char>>::InspectFailed(
            reason@,
        ),
        read.deep_view().workspace == read.workspace@,
        read.deep_view().user_path == read.user_path@,
        write.deep_view().workspace == write.workspace@,
        write.deep_view().user_path == write.user_path@,
        found.deep_view().workspace == found.workspace@,
        found.deep_view().path == found.path@,
        Step::<ReadResolution<PosixPath, String>, PosixPath, String>::Continue(read).deep_view()
            == Step::<ReadModel, Seq<u8>, Seq<char>>::Continue(read.deep_view()),
        Step::<ReadResolution<PosixPath, String>, PosixPath, String>::Found(file).deep_view()
            == Step::<ReadModel, Seq<u8>, Seq<char>>::Found(file@),
        Step::<ReadResolution<PosixPath, String>, PosixPath, String>::Refused(reason).deep_view()
            == Step::<ReadModel, Seq<u8>, Seq<char>>::Refused(reason@),
{
}

/// The model of a found ancestor has its path and all missing names, in order.
pub proof fn law_view_of_ancestor(
    ancestor: Ancestor<PosixPath, Vec<PosixPath>>,
    search: AncestorSearch<PosixPath, Vec<PosixPath>>,
)
    ensures
        ancestor.deep_view().path == ancestor.path@,
        ancestor.deep_view().missing.len() == ancestor.missing.len(),
        forall|i: int|
            0 <= i < ancestor.missing.len() ==> #[trigger] ancestor.deep_view().missing[i]
                == ancestor.missing[i]@,
        search.deep_view().path == search.path@,
        search.deep_view().current == search.current@,
        search.deep_view().missing.len() == search.missing.len(),
        forall|i: int|
            0 <= i < search.missing.len() ==> #[trigger] search.deep_view().missing[i]
                == search.missing[i]@,
{
}

/// The models of the steps of a replacement have each of their fields.
pub proof fn law_view_of_replacement(
    file: PosixPath,
    other: PosixPath,
    reason: String,
    retries: u8,
    write: TempFileWrite<PosixPath, String>,
)
    ensures
        WriteRequest::CreateNew(file).deep_view() == WriteRequest::<Seq<u8>>::CreateNew(file@),
        WriteRequest::WriteAll(file).deep_view() == WriteRequest::<Seq<u8>>::WriteAll(file@),
        WriteRequest::SetPermissions(file).deep_view() == WriteRequest::<Seq<u8>>::SetPermissions(file@),
        WriteRequest::Sync(file).deep_view() == WriteRequest::<Seq<u8>>::Sync(file@),
        WriteRequest::Remove(file).deep_view() == WriteRequest::<Seq<u8>>::Remove(file@),
        (WriteRequest::Rename { from: file, to: other }).deep_view() == (WriteRequest::<Seq<u8>>::Rename {
            from: file@,
            to: other@,
        }),
        WriteReply::<String>::Done.deep_view() is Done,
        WriteReply::<String>::AlreadyExists.deep_view() is AlreadyExists,
        WriteReply::Failed(reason).deep_view() == WriteReply::<Seq<char>>::Failed(reason@),
        write.deep_view().target == write.target@,
        write.deep_view().temp == write.temp@,
        write.deep_view().sets_permissions == write.sets_permissions,
        write.deep_view().phase == write.phase.deep_view(),
        TempPhase::<String>::Writing.deep_view() is Writing,
        TempPhase::<String>::Permitting.deep_view() is Permitting,
        TempPhase::<String>::Syncing.deep_view() is Syncing,
        (TempPhase::<String>::Creating { retries }).deep_view() == (TempPhase::<Seq<char>>::Creating { retries }),
        (TempPhase::Discarding { error: reason }).deep_view() == (TempPhase::<Seq<char>>::Discarding {
            error: reason@,
        }),
        AtomicWrite::Preparing(write).deep_view() == AtomicWrite::<Seq<u8>, Seq<char>>::Preparing(write.deep_view()),
        (AtomicWrite::<PosixPath, String>::Committing { target: file, temp: other }).deep_view()
            == (AtomicWrite::<Seq<u8>, Seq<char>>::Committing { target: file@, temp: other@ }),
        (AtomicWrite::Discarding { target: file, temp: other, error: reason }).deep_view() == (
        AtomicWrite::<Seq<u8>, Seq<char>>::Discarding { target: file@, temp: other@, error: reason@ }),
{
}

/// Lists of paths and texts are modelled item by item.
pub proof fn law_views_of_lists(
    paths: Seq<PosixPath>,
    strings: Seq<String>,
    texts: Seq<Seq<char>>,
    bytes: Seq<Seq<u8>>,
)
    ensures
        path::path_bytes(paths).len() == paths.len(),
        forall|i: int| 0 <= i < paths.len() ==> #[trigger] path::path_bytes(paths)[i] == paths[i]@,
        text::texts(strings).len() == strings.len(),
        forall|i: int| 0 <= i < strings.len() ==> #[trigger] text::texts(strings)[i] == strings[i]@,
        request::encoded(texts).len() == texts.len(),
        forall|i: int|
            0 <= i < texts.len() ==> #[trigger] request::encoded(texts)[i] == encode_utf8(texts[i]),
        workspace::displayed(bytes).len() == bytes.len(),
        forall|i: int|
            0 <= i < bytes.len() ==> #[trigger] workspace::displayed(bytes)[i] == text::as_text(
                bytes[i],
            ),
{
}

/// Optional texts and paths, and results, are modelled with what they hold.
pub proof fn law_views_of_options(string: String, file: PosixPath)
    ensures
        stream::shown_text(None) is None,
        stream::shown_text(Some(string)) == Some(string@),
        path::optional_bytes(None) is None,
        path::optional_bytes(Some(file)) == Some(file@),
        atomic::result_model(Ok(file)) == Ok::<Seq<u8>, Seq<char>>(file@),
        atomic::result_model(Err(string)) == Err::<Seq<u8>, Seq<char>>(string@),
        stream::text_or_empty(None) == Seq::<char>::empty(),
        stream::text_or_empty(Some(string@)) == string@,
{
}

/// The model of a run tells how far it has come, with the process, the task, the report and
/// the target that it goes on with.
pub proof fn law_view_of_run_phase(
    run: CommandRun<LaunchPlan, String>,
    process_id: Option<u32>,
    task_id: String,
    output: ExecOutput<String>,
    target: HookTarget,
)
    ensures
        run.deep_view().phase == run.phase.deep_view(),
        (RunPhase::Reporting { process_id, task_id }).deep_view() == (
        RunPhase::<Seq<char>>::Reporting { process_id, task_id: task_id@ }),
        (RunPhase::Choosing { process_id, task_id, output }).deep_view() == (
        RunPhase::<Seq<char>>::Choosing { process_id, task_id: task_id@, output: output.deep_view() }),
        (RunPhase::Notifying { process_id, task_id, output, target }).deep_view() == (
        RunPhase::<Seq<char>>::Notifying {
            process_id,
            task_id: task_id@,
            output: output.deep_view(),
            target,
        }),
{
}

/// The model of a resolution tells how far it has come, with the resolved workspace and the
/// ancestor that it goes on with.
pub proof fn law_view_of_resolution_phase(
    read: ReadResolution<PosixPath, String>,
    write: WriteResolution<PosixPath, String, Vec<PosixPath>>,
    file: PosixPath,
    search: AncestorSearch<PosixPath, Vec<PosixPath>>,
    ancestor: Ancestor<PosixPath, Vec<PosixPath>>,
)
    ensures
        read.deep_view().resolved_workspace == path::optional_bytes(read.resolved_workspace),
        write.deep_view().phase == write.phase.deep_view(),
        WritePhase::<PosixPath, Vec<PosixPath>>::Workspace.deep_view() is Workspace,
        (WritePhase::<PosixPath, Vec<PosixPath>>::Target { resolved_workspace: file }).deep_view() == (
        WritePhase::<Seq<u8>, Seq<Seq<u8>>>::Target { resolved_workspace: file@ }),
        (WritePhase::<PosixPath, Vec<PosixPath>>::Existing { resolved_workspace: file }).deep_view() == (
        WritePhase::<Seq<u8>, Seq<Seq<u8>>>::Existing { resolved_workspace: file@ }),
        (WritePhase::Climbing { resolved_workspace: file, search }).deep_view() == (WritePhase::<
            Seq<u8>,
            Seq<Seq<u8>>,
        >::Climbing { resolved_workspace: file@, search: search.deep_view() }),
        (WritePhase::Landed { resolved_workspace: file, ancestor }).deep_view() == (WritePhase::<
            Seq<u8>,
            Seq<Seq<u8>>,
        >::Landed { resolved_workspace: file@, ancestor: ancestor.deep_view() }),
{
}

/// The model of a search names the listed workspaces in order, the requested path, the
/// workspace that is tried and the errors of those that were.
pub proof fn law_view_of_search(
    read: ReadSearch<PosixPath, String, Vec<PosixPath>, Vec<String>>,
    write: WriteSearch<PosixPath, String, Vec<PosixPath>, Vec<String>>,
    index: usize,
    errors: Vec<String>,
    resolution: WriteResolution<PosixPath, String, Vec<PosixPath>>,
)
    ensures
        read.deep_view().workspaces == path::path_bytes(read.workspaces@),
        read.deep_view().user_path == read.user_path@,
        read.deep_view().index == read.index,
        read.deep_view().errors == text::texts(read.errors@),
        read.deep_view().resolution == read.resolution.deep_view(),
        write.deep_view().workspaces == path::path_bytes(write.workspaces@),
        write.deep_view().user_path == write.user_path@,
        write.deep_view().phase == write.phase.deep_view(),
        (WriteSearchPhase::<PosixPath, String, Vec<PosixPath>, Vec<String>>::Probing {
            index,
        }).deep_view() == (WriteSearchPhase::<
            Seq<u8>,
            Seq<char>,
            Seq<Seq<u8>>,
            Seq<Seq<char>>,
        >::Probing { index }),
        (WriteSearchPhase::<PosixPath, String, Vec<PosixPath>, Vec<String>>::Chosen {
            index,
            resolution,
        }).deep_view() == (WriteSearchPhase::<
            Seq<u8>,
            Seq<char>,
            Seq<Seq<u8>>,
            Seq<Seq<char>>,
        >::Chosen { index, resolution: resolution.deep_view() }),
        (WriteSearchPhase::Trying { index, errors, resolution }).deep_view() == (WriteSearchPhase::<
            Seq<u8>,
            Seq<char>,
            Seq<Seq<u8>>,
            Seq<Seq<char>>,
        >::Trying { index, errors: text::texts(errors@), resolution: resolution.deep_view() }),
{
    assert(read.workspaces.deep_view() == path::path_bytes(read.workspaces@));
    assert(write.workspaces.deep_view() == path::path_bytes(write.workspaces@));
    assert(read.errors.deep_view() == text::texts(read.errors@));
    assert(errors.deep_view() == text::texts(errors@));
}

} // verus!
