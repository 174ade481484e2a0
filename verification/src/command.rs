//! Running a command: what to ask of the system and what to report.
//!
//! A command in the foreground is spawned and waited for. One in the background is
//! spawned and reported under a task id, and from then on followed by a monitor.
use crate::output;
use crate::output::{
    append_output_read_error, output_bytes_to_exec_output, output_chunks_to_exec_output,
    output_reader_error, ExecOutput, OutputModel, ReaderOutcome, NEWLINE,
};
use crate::path::PosixPath;
use crate::stream;
use crate::stream::{collect_progress_output, Progress, ProgressStreamState};
use crate::text;
use crate::text::bytes_of;
use vstd::prelude::*;
use vstd::slice::slice_to_vec;
use vstd::string::*;
use vstd::utf8::*;

verus! {

/// True for the characters of an encoded unique id.
pub open spec fn is_xid_char(ch: char) -> bool {
    ('0' <= ch && ch <= '9') || ('a' <= ch && ch <= 'v')
}

/// True for the text of a unique id.
pub open spec fn is_xid(text: Seq<char>) -> bool {
    &&& text.len() == 20
    &&& forall|i: int| 0 <= i < text.len() ==> is_xid_char(#[trigger] text[i])
}

/// Calls [`ic_auth_types::Xid::new`] and writes the id as text: twenty characters of its
/// base-32 alphabet. Which ones depends on the clock, the machine, the process and a
/// counter; that no two ids are equal is not stated. It panics where the clock is set
/// before 1970.
#[verifier::external_body]
fn fresh_xid() -> (id: String)
    ensures
        is_xid(id@),
{
    ic_auth_types::Xid::new().to_string()
}

/// The id of a background task: the tool's name and a unique id.
pub open spec fn task_id(tool_name: Seq<char>, xid: Seq<char>) -> Seq<char> {
    tool_name + ":"@ + xid
}

/// The id of a background task with the given unique id.
pub fn task_id_with(tool_name: &str, xid: &str) -> (id: String)
    ensures
        id@ == task_id(tool_name@, xid@),
{
    let mut id = tool_name.to_string();
    id.append(":");
    id.append(xid);
    id
}

/// Who hears of a background task.
#[derive(Debug, Clone, Copy, PartialEq, Eq, Structural)]
pub enum HookTarget {
    /// The hook that takes JSON.
    Json,
    /// The hook that takes the library's types.
    Typed,
    /// Nobody.
    Nobody,
}

/// Who hears of a background task, given which hooks there are: the one that takes JSON
/// before the other.
pub open spec fn hook_target(has_json_hook: bool, has_typed_hook: bool) -> HookTarget {
    if has_json_hook {
        HookTarget::Json
    } else if has_typed_hook {
        HookTarget::Typed
    } else {
        HookTarget::Nobody
    }
}

/// Picks who hears of a background task.
pub fn choose_hook(has_json_hook: bool, has_typed_hook: bool) -> (target: HookTarget)
    ensures
        target == hook_target(has_json_hook, has_typed_hook),
{
    if has_json_hook {
        HookTarget::Json
    } else if has_typed_hook {
        HookTarget::Typed
    } else {
        HookTarget::Nobody
    }
}

/// What a command is to be run with.
#[derive(Debug)]
pub struct ExecArgs<T> {
    /// The command, as the shell reads it.
    pub command: T,
    /// Whether the command runs in the background.
    pub background: bool,
}

/// The model of what a command is to be run with.
pub type ArgsModel = ExecArgs<Seq<char>>;

impl<T: DeepView> DeepView for ExecArgs<T> {
    type V = ExecArgs<T::V>;

    open spec fn deep_view(&self) -> ExecArgs<T::V> {
        ExecArgs { command: self.command.deep_view(), background: self.background }
    }
}

impl ExecArgs<Seq<char>> {
    /// An empty command in the foreground.
    pub open spec fn empty() -> ArgsModel {
        ExecArgs { command: Seq::empty(), background: false }
    }
}

impl Default for ExecArgs<String> {
    /// An empty command in the foreground.
    fn default() -> (args: Self)
        ensures
            args.deep_view() == ExecArgs::empty(),
    {
        ExecArgs { command: String::new(), background: false }
    }
}

impl Clone for ExecArgs<String> {
    fn clone(&self) -> (args: Self)
        ensures
            args.deep_view() == self.deep_view(),
    {
        ExecArgs { command: self.command.clone(), background: self.background }
    }
}

/// A change of one variable: its name, and its value or nothing where it is taken away.
pub type Variable = (Vec<u8>, Option<Vec<u8>>);

/// The model of a change of one variable.
pub type VariableModel = (Seq<u8>, Option<Seq<u8>>);

/// What a process is spawned with. It gets no input, both its outputs are piped, and it
/// is killed when nobody holds it any more.
pub struct Launch<P, B, A, E> {
    /// The program.
    pub program: B,
    /// The program's arguments.
    pub args: A,
    /// The variables that are changed for the process, in this order.
    pub envs: E,
    /// The directory that the process runs in.
    pub workspace: P,
    /// Whether all other variables are hidden from the process.
    pub clear_env: bool,
}

/// What a process is spawned with.
pub type LaunchPlan = Launch<PosixPath, Vec<u8>, Vec<Vec<u8>>, Vec<Variable>>;

/// The model of what a process is spawned with.
pub type LaunchModel = Launch<Seq<u8>, Seq<u8>, Seq<Seq<u8>>, Seq<VariableModel>>;

impl<P: DeepView, B: DeepView, A: DeepView, E: DeepView> DeepView for Launch<P, B, A, E> {
    type V = Launch<P::V, B::V, A::V, E::V>;

    open spec fn deep_view(&self) -> Launch<P::V, B::V, A::V, E::V> {
        Launch {
            program: self.program.deep_view(),
            args: self.args.deep_view(),
            envs: self.envs.deep_view(),
            workspace: self.workspace.deep_view(),
            clear_env: self.clear_env,
        }
    }
}

/// The variables with the changes made in turn.
pub open spec fn changed(
    variables: Map<Seq<u8>, Seq<u8>>,
    changes: Seq<VariableModel>,
) -> Map<Seq<u8>, Seq<u8>>
    decreases changes.len(),
{
    if changes.len() == 0 {
        variables
    } else {
        let before = changed(variables, changes.drop_last());
        match changes.last() {
            (name, Some(value)) => before.insert(name, value),
            (name, None) => before.remove(name),
        }
    }
}

impl Launch<Seq<u8>, Seq<u8>, Seq<Seq<u8>>, Seq<VariableModel>> {
    /// The variables that the process sees, where `own` are those of the program that
    /// spawns it.
    pub open spec fn environment(self, own: Map<Seq<u8>, Seq<u8>>) -> Map<Seq<u8>, Seq<u8>> {
        changed(
            if self.clear_env {
                Map::empty()
            } else {
                own
            },
            self.envs,
        )
    }
}

/// Copies the bytes.
fn copy_bytes(bytes: &Vec<u8>) -> (copy: Vec<u8>)
    ensures
        copy@ == bytes@,
        copy.deep_view() == bytes.deep_view(),
{
    let copy = slice_to_vec(bytes.as_slice());
    assert(copy.deep_view() == bytes.deep_view());
    copy
}

fn copy_words(words: &Vec<Vec<u8>>) -> (copy: Vec<Vec<u8>>)
    ensures
        copy.deep_view() == words.deep_view(),
{
    let mut copy: Vec<Vec<u8>> = Vec::new();
    let mut i: usize = 0;
    while i < words.len()
        invariant
            i <= words.len(),
            copy.deep_view() == words.deep_view().take(i as int),
        decreases words.len() - i,
    {
        let ghost before = copy.deep_view();
        copy.push(copy_bytes(&words[i]));
        assert(copy.deep_view() == before.push(words@[i as int].deep_view()));
        assert(words.deep_view().take(i + 1) == before.push(words@[i as int].deep_view()));
        i += 1;
    }
    assert(words.deep_view().take(i as int) == words.deep_view());
    copy
}

/// Appends copies of the changes.
fn append_variables(changes: &mut Vec<Variable>, more: &Vec<Variable>)
    ensures
        final(changes).deep_view() == old(changes).deep_view() + more.deep_view(),
{
    let ghost start = changes.deep_view();
    let mut i: usize = 0;
    assert(start + more.deep_view().take(0) == start);
    while i < more.len()
        invariant
            i <= more.len(),
            changes.deep_view() == start + more.deep_view().take(i as int),
        decreases more.len() - i,
    {
        let ghost before = changes.deep_view();
        let ghost change = more@[i as int].deep_view();
        let name = copy_bytes(&more[i].0);
        let value = match &more[i].1 {
            Some(value) => Some(copy_bytes(value)),
            None => None,
        };
        changes.push((name, value));
        assert(changes.deep_view() == before.push(change));
        assert(start + more.deep_view().take(i + 1) == before.push(change));
        i += 1;
    }
    assert(more.deep_view().take(i as int) == more.deep_view());
}

impl Clone for Launch<PosixPath, Vec<u8>, Vec<Vec<u8>>, Vec<Variable>> {
    fn clone(&self) -> (launch: Self)
        ensures
            launch.deep_view() == self.deep_view(),
    {
        let mut envs: Vec<Variable> = Vec::new();
        append_variables(&mut envs, &self.envs);
        assert(envs.deep_view() == self.envs.deep_view());
        Launch {
            program: copy_bytes(&self.program),
            args: copy_words(&self.args),
            envs,
            workspace: self.workspace.clone(),
            clear_env: self.clear_env,
        }
    }
}

/// What a run asks of the system.
pub enum RunRequest<L, B, T> {
    /// A process.
    Spawn(L),
    /// The end of the process, and its output captured.
    Wait,
    /// A report of the bytes, as the output of the process that has ended well.
    Capture { process_id: Option<u32>, stdout: B },
    /// Which hooks there are.
    FindHooks,
    /// The start of the task made known, with what the command was to be run with.
    NotifyStart { target: HookTarget, task_id: T, args: ExecArgs<T> },
}

/// What the system answers.
pub enum RunReply<T> {
    /// There is a process.
    Spawned { process_id: Option<u32> },
    /// There is none, or it could not be waited for, for the reason given.
    Failed(T),
    /// The report that was asked for.
    Captured(ExecOutput<T>),
    /// The hooks that there are.
    Hooks { has_json_hook: bool, has_typed_hook: bool },
    /// The start has been made known.
    Notified,
}

/// How far a run has come.
pub enum RunPhase<T> {
    /// The process is to be spawned.
    Spawning,
    /// The process runs in the foreground.
    Waiting { process_id: Option<u32> },
    /// The process runs in the background, and its first report is to be made.
    Reporting { process_id: Option<u32>, task_id: T },
    /// The process runs in the background, and those who hear of it are to be found.
    Choosing { process_id: Option<u32>, task_id: T, output: ExecOutput<T> },
    /// The process runs in the background, and its start is to be made known.
    Notifying { process_id: Option<u32>, task_id: T, output: ExecOutput<T>, target: HookTarget },
}

/// The run of a command.
pub struct CommandRun<L, T> {
    pub tool_name: T,
    pub launch: L,
    pub args: ExecArgs<T>,
    pub phase: RunPhase<T>,
}

/// How a run goes on.
pub enum RunStep<L, T, M> {
    /// It asks for the next thing.
    Continue(CommandRun<L, T>),
    /// It ends with a report.
    Finished(ExecOutput<T>),
    /// It ends with a report, and the process is followed in the background.
    Started(ExecOutput<T>, M),
}

/// What is known of a process in the background, and how far its outputs are taken up.
#[verifier::ext_equal]
pub struct Background {
    pub task_id: Seq<char>,
    pub process_id: Option<u32>,
    pub workspace: Seq<char>,
    pub target: HookTarget,
    pub stdout: Progress,
    pub stderr: Progress,
}

/// The model of a request.
pub type RunRequestModel = RunRequest<LaunchModel, Seq<u8>, Seq<char>>;

/// The model of a run.
pub type RunModel = CommandRun<LaunchModel, Seq<char>>;

/// The model of how a run goes on.
pub type RunStepModel = RunStep<LaunchModel, Seq<char>, Background>;

impl<L: DeepView, B: DeepView, T: DeepView> DeepView for RunRequest<L, B, T> {
    type V = RunRequest<L::V, B::V, T::V>;

    open spec fn deep_view(&self) -> RunRequest<L::V, B::V, T::V> {
        match self {
            RunRequest::Spawn(launch) => RunRequest::Spawn(launch.deep_view()),
            RunRequest::Wait => RunRequest::Wait,
            RunRequest::Capture { process_id, stdout } => RunRequest::Capture {
                process_id: *process_id,
                stdout: stdout.deep_view(),
            },
            RunRequest::FindHooks => RunRequest::FindHooks,
            RunRequest::NotifyStart { target, task_id, args } => RunRequest::NotifyStart {
                target: *target,
                task_id: task_id.deep_view(),
                args: args.deep_view(),
            },
        }
    }
}

impl<T: DeepView> DeepView for RunReply<T> {
    type V = RunReply<T::V>;

    open spec fn deep_view(&self) -> RunReply<T::V> {
        match self {
            RunReply::Spawned { process_id } => RunReply::Spawned { process_id: *process_id },
            RunReply::Failed(error) => RunReply::Failed(error.deep_view()),
            RunReply::Captured(output) => RunReply::Captured(output.deep_view()),
            RunReply::Hooks { has_json_hook, has_typed_hook } => RunReply::Hooks {
                has_json_hook: *has_json_hook,
                has_typed_hook: *has_typed_hook,
            },
            RunReply::Notified => RunReply::Notified,
        }
    }
}

impl<T: DeepView> DeepView for RunPhase<T> {
    type V = RunPhase<T::V>;

    open spec fn deep_view(&self) -> RunPhase<T::V> {
        match self {
            RunPhase::Spawning => RunPhase::Spawning,
            RunPhase::Waiting { process_id } => RunPhase::Waiting { process_id: *process_id },
            RunPhase::Reporting { process_id, task_id } => RunPhase::Reporting {
                process_id: *process_id,
                task_id: task_id.deep_view(),
            },
            RunPhase::Choosing { process_id, task_id, output } => RunPhase::Choosing {
                process_id: *process_id,
                task_id: task_id.deep_view(),
                output: output.deep_view(),
            },
            RunPhase::Notifying { process_id, task_id, output, target } => RunPhase::Notifying {
                process_id: *process_id,
                task_id: task_id.deep_view(),
                output: output.deep_view(),
                target: *target,
            },
        }
    }
}

impl<L: DeepView, T: DeepView> DeepView for CommandRun<L, T> {
    type V = CommandRun<L::V, T::V>;

    open spec fn deep_view(&self) -> CommandRun<L::V, T::V> {
        CommandRun {
            tool_name: self.tool_name.deep_view(),
            launch: self.launch.deep_view(),
            args: self.args.deep_view(),
            phase: self.phase.deep_view(),
        }
    }
}

impl<L: DeepView, T: DeepView, M: DeepView> DeepView for RunStep<L, T, M> {
    type V = RunStep<L::V, T::V, M::V>;

    open spec fn deep_view(&self) -> RunStep<L::V, T::V, M::V> {
        match self {
            RunStep::Continue(run) => RunStep::Continue(run.deep_view()),
            RunStep::Finished(output) => RunStep::Finished(output.deep_view()),
            RunStep::Started(output, monitor) => RunStep::Started(
                output.deep_view(),
                monitor.deep_view(),
            ),
        }
    }
}

/// The report of a process that could not be run.
pub open spec fn failure_report(
    process_id: Option<u32>,
    workspace: Seq<char>,
    message: Seq<char>,
) -> OutputModel {
    ExecOutput { workspace: Some(workspace), process_id, stderr: Some(message), ..ExecOutput::empty() }
}

/// The report with the directory that the process ran in.
pub open spec fn in_workspace(report: OutputModel, workspace: Seq<char>) -> OutputModel {
    ExecOutput { workspace: Some(workspace), ..report }
}

/// What is shown of a background task that has been started.
pub open spec fn started_message(task_id: Seq<char>) -> Seq<char> {
    "Background process started with task ID "@ + task_id
}

/// The error that an answer gives. An answer that gives none stands for an empty one.
pub open spec fn run_error(reply: RunReply<Seq<char>>) -> Seq<char> {
    match reply {
        RunReply::Failed(error) => error,
        _ => Seq::empty(),
    }
}

/// The report that an answer gives. An answer that gives none stands for an empty one.
pub open spec fn run_output(reply: RunReply<Seq<char>>) -> OutputModel {
    match reply {
        RunReply::Captured(output) => output,
        _ => ExecOutput::empty(),
    }
}

/// Who hears of the task by an answer. Nobody does where it names no hooks.
pub open spec fn run_target(reply: RunReply<Seq<char>>) -> HookTarget {
    match reply {
        RunReply::Hooks { has_json_hook, has_typed_hook } => hook_target(
            has_json_hook,
            has_typed_hook,
        ),
        _ => HookTarget::Nobody,
    }
}

impl CommandRun<LaunchModel, Seq<char>> {
    /// The directory that the process runs in, as it is reported.
    pub open spec fn shown_workspace(self) -> Seq<char> {
        text::as_text(self.launch.workspace)
    }

    /// The same run in another phase.
    pub open spec fn enters(self, phase: RunPhase<Seq<char>>) -> RunStepModel {
        RunStep::Continue(CommandRun { phase, ..self })
    }

    /// What the run asks for.
    pub open spec fn asks(self) -> RunRequestModel {
        match self.phase {
            RunPhase::Spawning => RunRequest::Spawn(self.launch),
            RunPhase::Waiting { .. } => RunRequest::Wait,
            RunPhase::Reporting { process_id, task_id } => RunRequest::Capture {
                process_id,
                stdout: encode_utf8(started_message(task_id)),
            },
            RunPhase::Choosing { .. } => RunRequest::FindHooks,
            RunPhase::Notifying { task_id, target, .. } => RunRequest::NotifyStart {
                target,
                task_id,
                args: self.args,
            },
        }
    }

    /// How the run goes on. Where a background task is to be named, `xid` tells it apart.
    pub open spec fn after(self, reply: RunReply<Seq<char>>, xid: Seq<char>) -> RunStepModel {
        match self.phase {
            RunPhase::Spawning => match reply {
                RunReply::Spawned { process_id } => if self.args.background {
                    self.enters(
                        RunPhase::Reporting { process_id, task_id: task_id(self.tool_name, xid) },
                    )
                } else {
                    self.enters(RunPhase::Waiting { process_id })
                },
                _ => RunStep::Finished(
                    failure_report(
                        None,
                        self.shown_workspace(),
                        "Failed to spawn process: "@ + run_error(reply),
                    ),
                ),
            },
            RunPhase::Waiting { process_id } => match reply {
                RunReply::Captured(output) => RunStep::Finished(
                    in_workspace(output, self.shown_workspace()),
                ),
                _ => RunStep::Finished(
                    failure_report(
                        process_id,
                        self.shown_workspace(),
                        "Failed to execute background process: "@ + run_error(reply),
                    ),
                ),
            },
            RunPhase::Reporting { process_id, task_id } => self.enters(
                RunPhase::Choosing { process_id, task_id, output: run_output(reply) },
            ),
            RunPhase::Choosing { process_id, task_id, output } => self.enters(
                RunPhase::Notifying { process_id, task_id, output, target: run_target(reply) },
            ),
            RunPhase::Notifying { process_id, task_id, output, target } => RunStep::Started(
                output,
                Background {
                    task_id,
                    process_id,
                    workspace: self.shown_workspace(),
                    target,
                    stdout: Progress::start(),
                    stderr: Progress::start(),
                },
            ),
        }
    }
}

fn failure_output(
    process_id: Option<u32>,
    workspace: String,
    what: &str,
    error: String,
) -> (output: ExecOutput<String>)
    ensures
        output.deep_view() == failure_report(process_id, workspace@, what@ + error@),
{
    let mut message = what.to_string();
    message.append(error.as_str());
    ExecOutput {
        workspace: Some(workspace),
        process_id,
        exit_status: None,
        stdout: None,
        stderr: Some(message),
        raw_output_path: None,
    }
}

/// Sets the directory that the process ran in.
fn set_workspace(output: ExecOutput<String>, workspace: String) -> (result: ExecOutput<String>)
    ensures
        result.deep_view() == in_workspace(output.deep_view(), workspace@),
{
    ExecOutput {
        workspace: Some(workspace),
        process_id: output.process_id,
        exit_status: output.exit_status,
        stdout: output.stdout,
        stderr: output.stderr,
        raw_output_path: output.raw_output_path,
    }
}

fn run_error_text(reply: RunReply<String>) -> (error: String)
    ensures
        error@ == run_error(reply.deep_view()),
{
    match reply {
        RunReply::Failed(error) => error,
        _ => String::new(),
    }
}

impl CommandRun<LaunchPlan, String> {
    /// What the run asks for.
    pub fn request(&self) -> (request: RunRequest<LaunchPlan, Vec<u8>, String>)
        ensures
            request.deep_view() == self.deep_view().asks(),
    {
        match &self.phase {
            RunPhase::Spawning => RunRequest::Spawn(self.launch.clone()),
            RunPhase::Waiting { .. } => RunRequest::Wait,
            RunPhase::Reporting { process_id, task_id } => {
                let mut message = "Background process started with task ID ".to_string();
                message.append(task_id.as_str());
                let stdout = bytes_of(message.as_str());
                assert(stdout.deep_view() == stdout@);
                RunRequest::Capture { process_id: *process_id, stdout }
            },
            RunPhase::Choosing { .. } => RunRequest::FindHooks,
            RunPhase::Notifying { task_id, target, .. } => RunRequest::NotifyStart {
                target: *target,
                task_id: task_id.clone(),
                args: self.args.clone(),
            },
        }
    }

    fn enter(self, phase: RunPhase<String>) -> (step: RunStep<
        LaunchPlan,
        String,
        BackgroundMonitor,
    >)
        ensures
            step.deep_view() == self.deep_view().enters(phase.deep_view()),
    {
        RunStep::Continue(
            CommandRun {
                tool_name: self.tool_name,
                launch: self.launch,
                args: self.args,
                phase,
            },
        )
    }

    /// Takes the answer to what the run asked for. Where a background task is to be
    /// named, `xid` tells it apart.
    pub fn reply_with(self, reply: RunReply<String>, xid: &str) -> (step: RunStep<
        LaunchPlan,
        String,
        BackgroundMonitor,
    >)
        ensures
            step.deep_view() == self.deep_view().after(reply.deep_view(), xid@),
    {
        let shown = self.launch.workspace.display();
        let CommandRun { tool_name, launch, args, phase } = self;
        let background = args.background;
        let run = CommandRun { tool_name, launch, args, phase: RunPhase::Spawning };
        match phase {
            RunPhase::Spawning => match reply {
                RunReply::Spawned { process_id } => {
                    if background {
                        let task_id = task_id_with(run.tool_name.as_str(), xid);
                        run.enter(RunPhase::Reporting { process_id, task_id })
                    } else {
                        run.enter(RunPhase::Waiting { process_id })
                    }
                },
                other => RunStep::Finished(
                    failure_output(
                        None,
                        shown,
                        "Failed to spawn process: ",
                        run_error_text(other),
                    ),
                ),
            },
            RunPhase::Waiting { process_id } => match reply {
                RunReply::Captured(output) => RunStep::Finished(set_workspace(output, shown)),
                other => RunStep::Finished(
                    failure_output(
                        process_id,
                        shown,
                        "Failed to execute background process: ",
                        run_error_text(other),
                    ),
                ),
            },
            RunPhase::Reporting { process_id, task_id } => {
                let output = match reply {
                    RunReply::Captured(output) => output,
                    _ => ExecOutput::default(),
                };
                run.enter(RunPhase::Choosing { process_id, task_id, output })
            },
            RunPhase::Choosing { process_id, task_id, output } => {
                let target = match reply {
                    RunReply::Hooks { has_json_hook, has_typed_hook } => choose_hook(
                        has_json_hook,
                        has_typed_hook,
                    ),
                    _ => HookTarget::Nobody,
                };
                run.enter(RunPhase::Notifying { process_id, task_id, output, target })
            },
            RunPhase::Notifying { process_id, task_id, output, target } => RunStep::Started(
                output,
                BackgroundMonitor {
                    task_id,
                    process_id,
                    workspace: shown,
                    target,
                    stdout: ProgressStreamState::default(),
                    stderr: ProgressStreamState::default(),
                },
            ),
        }
    }

    /// Takes the answer to what the run asked for. A background task that is to be named
    /// gets a unique id of its own.
    pub fn reply(self, reply: RunReply<String>) -> (step: RunStep<
        LaunchPlan,
        String,
        BackgroundMonitor,
    >)
        ensures
            exists|xid: Seq<char>|
                is_xid(xid) && step.deep_view() == #[trigger] self.deep_view().after(
                    reply.deep_view(),
                    xid,
                ),
    {
        let spawned = match &reply {
            RunReply::Spawned { .. } => true,
            _ => false,
        };
        let spawning = match &self.phase {
            RunPhase::Spawning => true,
            _ => false,
        };
        if self.args.background && spawning && spawned {
            let xid = fresh_xid();
            self.reply_with(reply, xid.as_str())
        } else {
            proof {
                let any = Seq::new(20, |i: int| '0');
                assert(is_xid(any));
                assert(self.deep_view().after(reply.deep_view(), any) == self.deep_view().after(
                    reply.deep_view(),
                    ""@,
                ));
            }
            self.reply_with(reply, "")
        }
    }
}

/// Follows a process in the background.
pub struct BackgroundMonitor {
    task_id: String,
    process_id: Option<u32>,
    workspace: String,
    target: HookTarget,
    stdout: ProgressStreamState,
    stderr: ProgressStreamState,
}

impl DeepView for BackgroundMonitor {
    type V = Background;

    closed spec fn deep_view(&self) -> Background {
        Background {
            task_id: self.task_id@,
            process_id: self.process_id,
            workspace: self.workspace@,
            target: self.target,
            stdout: self.stdout@,
            stderr: self.stderr@,
        }
    }
}

/// A task in the background whose process has ended and whose output is being captured.
pub struct EndingTask {
    task_id: String,
    workspace: String,
    target: HookTarget,
}

/// What is known of a task in the background whose output is being captured.
#[verifier::ext_equal]
pub struct Ending {
    pub task_id: Seq<char>,
    pub workspace: Seq<char>,
    pub target: HookTarget,
}

impl DeepView for EndingTask {
    type V = Ending;

    closed spec fn deep_view(&self) -> Ending {
        Ending { task_id: self.task_id@, workspace: self.workspace@, target: self.target }
    }
}

/// A report on a task in the background that is made known.
pub struct BackgroundNotice<T> {
    pub target: HookTarget,
    pub task_id: T,
    pub output: ExecOutput<T>,
}

/// The model of a report that is made known.
pub type NoticeModel = BackgroundNotice<Seq<char>>;

impl<T: DeepView> DeepView for BackgroundNotice<T> {
    type V = BackgroundNotice<T::V>;

    open spec fn deep_view(&self) -> BackgroundNotice<T::V> {
        BackgroundNotice {
            target: self.target,
            task_id: self.task_id.deep_view(),
            output: self.output.deep_view(),
        }
    }
}

/// What follows from the end of a process in the background.
pub enum BackgroundExit<B, T, M> {
    /// The bytes are captured, as the output of the process that has ended, and the task
    /// ends with what comes of that.
    Capture { process_id: Option<u32>, stdout: B, stderr: B, ending: M },
    /// The report is made known as the end.
    End(BackgroundNotice<T>),
}

/// The model of what follows from the end of a process.
pub type ExitModel = BackgroundExit<Seq<u8>, Seq<char>, Ending>;

impl<B: DeepView, T: DeepView, M: DeepView> DeepView for BackgroundExit<B, T, M> {
    type V = BackgroundExit<B::V, T::V, M::V>;

    open spec fn deep_view(&self) -> BackgroundExit<B::V, T::V, M::V> {
        match self {
            BackgroundExit::Capture { process_id, stdout, stderr, ending } =>
                BackgroundExit::Capture {
                process_id: *process_id,
                stdout: stdout.deep_view(),
                stderr: stderr.deep_view(),
                ending: ending.deep_view(),
            },
            BackgroundExit::End(notice) => BackgroundExit::End(notice.deep_view()),
        }
    }
}

/// The bytes with the error at their end, where there is one.
pub open spec fn with_optional_error(stderr: Seq<u8>, error: Option<Seq<char>>) -> Seq<u8> {
    match error {
        Some(error) => output::with_read_error(stderr, error),
        None => stderr,
    }
}

/// The error output of a process that has ended, with what went wrong while it was read.
pub open spec fn final_stderr(
    stderr: Seq<u8>,
    stdout_reader: ReaderOutcome<Seq<char>>,
    stderr_reader: ReaderOutcome<Seq<char>>,
) -> Seq<u8> {
    with_optional_error(
        with_optional_error(stderr, output::reader_error(stdout_reader, "stdout"@)),
        output::reader_error(stderr_reader, "stderr"@),
    )
}

/// The error output of a process that could not be waited for.
pub open spec fn failed_stderr(error: Seq<char>, stderr: Seq<u8>) -> Seq<u8> {
    let message = encode_utf8("Failed to execute background process: "@ + error);
    if stderr.len() == 0 {
        message
    } else {
        message.push(NEWLINE) + stderr
    }
}

impl Background {
    /// The outputs are taken up as far as they can be.
    pub open spec fn wf(self) -> bool {
        self.stdout.wf() && self.stderr.wf()
    }

    /// The monitor after a look at both outputs.
    pub open spec fn looked(self, stdout: Seq<u8>, stderr: Seq<u8>) -> Background {
        Background {
            stdout: self.stdout.next(stdout).0,
            stderr: self.stderr.next(stderr).0,
            ..self
        }
    }

    /// What is made known as progress after a look at both outputs, where anything is
    /// shown.
    pub open spec fn on_tick(self, stdout: Seq<u8>, stderr: Seq<u8>) -> Option<NoticeModel> {
        let out = self.stdout.next(stdout).1;
        let err = self.stderr.next(stderr).1;
        if out is None && err is None {
            None
        } else {
            Some(
                BackgroundNotice {
                    target: self.target,
                    task_id: self.task_id,
                    output: output::chunks_report(
                        self.process_id,
                        self.workspace,
                        stream::text_or_empty(out),
                        stream::text_or_empty(err),
                    ),
                },
            )
        }
    }

    /// What follows from the end of the process, or from an error while it was waited
    /// for.
    pub open spec fn on_exit(
        self,
        error: Option<Seq<char>>,
        stdout: Seq<u8>,
        stderr: Seq<u8>,
    ) -> ExitModel {
        match error {
            None => BackgroundExit::Capture {
                process_id: self.process_id,
                stdout,
                stderr,
                ending: Ending {
                    task_id: self.task_id,
                    workspace: self.workspace,
                    target: self.target,
                },
            },
            Some(error) => BackgroundExit::End(
                BackgroundNotice {
                    target: self.target,
                    task_id: self.task_id,
                    output: output::chunks_report(
                        self.process_id,
                        self.workspace,
                        text::as_text(stdout),
                        text::as_text(failed_stderr(error, stderr)),
                    ),
                },
            ),
        }
    }
}

impl Ending {
    /// What is made known as the end once the output of the process has been captured.
    pub open spec fn on_captured(self, output: OutputModel) -> NoticeModel {
        BackgroundNotice {
            target: self.target,
            task_id: self.task_id,
            output: in_workspace(output, self.workspace),
        }
    }
}

fn append_optional_error(stderr: &mut Vec<u8>, error: Option<String>)
    ensures
        final(stderr)@ == with_optional_error(old(stderr)@, error.deep_view()),
{
    if let Some(error) = error {
        append_output_read_error(stderr, error.as_str());
    }
}

impl BackgroundMonitor {
    /// Looks at what the process has written so far. Returns what is made known as
    /// progress.
    pub fn on_tick(&mut self, stdout: &[u8], stderr: &[u8]) -> (progress: Option<
        BackgroundNotice<String>,
    >)
        requires
            old(self).deep_view().wf(),
        ensures
            progress.deep_view() == old(self).deep_view().on_tick(stdout@, stderr@),
            final(self).deep_view() == old(self).deep_view().looked(stdout@, stderr@),
            final(self).deep_view().wf(),
    {
        match collect_progress_output(stdout, stderr, &mut self.stdout, &mut self.stderr) {
            None => None,
            Some((stdout_chunk, stderr_chunk)) => {
                let output = output_chunks_to_exec_output(
                    self.process_id,
                    self.workspace.as_str(),
                    stdout_chunk,
                    stderr_chunk,
                );
                Some(
                    BackgroundNotice { target: self.target, task_id: self.task_id.clone(), output },
                )
            },
        }
    }

    /// Takes the end of the process, or the error while it was waited for, with what it
    /// has written and how the reading of that ended. With that the looks are over.
    pub fn on_exit(
        self,
        error: Option<String>,
        stdout: Vec<u8>,
        stderr: Vec<u8>,
        stdout_reader: &ReaderOutcome<String>,
        stderr_reader: &ReaderOutcome<String>,
    ) -> (exit: BackgroundExit<Vec<u8>, String, EndingTask>)
        ensures
            exit.deep_view() == self.deep_view().on_exit(
                error.deep_view(),
                stdout@,
                final_stderr(stderr@, stdout_reader.deep_view(), stderr_reader.deep_view()),
            ),
    {
        let mut stderr = stderr;
        append_optional_error(&mut stderr, output_reader_error(stdout_reader, "stdout"));
        append_optional_error(&mut stderr, output_reader_error(stderr_reader, "stderr"));
        assert(stdout.deep_view() == stdout@);
        assert(stderr.deep_view() == stderr@);
        match error {
            None => BackgroundExit::Capture {
                process_id: self.process_id,
                stdout,
                stderr,
                ending: EndingTask {
                    task_id: self.task_id,
                    workspace: self.workspace,
                    target: self.target,
                },
            },
            Some(error) => {
                let mut message = "Failed to execute background process: ".to_string();
                message.append(error.as_str());
                let mut bytes = bytes_of(message.as_str());
                if stderr.len() > 0 {
                    bytes.push(NEWLINE);
                    bytes.append(&mut stderr);
                }
                let output = output_bytes_to_exec_output(
                    self.process_id,
                    self.workspace.as_str(),
                    &stdout,
                    &bytes,
                );
                BackgroundExit::End(
                    BackgroundNotice { target: self.target, task_id: self.task_id, output },
                )
            },
        }
    }
}

impl EndingTask {
    /// Takes the captured output of the process. With what is made known of it as the
    /// end, the task is over.
    pub fn on_captured(self, output: ExecOutput<String>) -> (end: BackgroundNotice<String>)
        ensures
            end.deep_view() == self.deep_view().on_captured(output.deep_view()),
    {
        BackgroundNotice {
            target: self.target,
            task_id: self.task_id,
            output: set_workspace(output, self.workspace),
        }
    }
}

} // verus!
