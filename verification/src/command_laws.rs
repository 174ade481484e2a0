//! What holds of every run of a command.
use crate::command;
use crate::command::{
    ArgsModel, Background, BackgroundExit, Ending, HookTarget, LaunchModel, NoticeModel, RunModel,
    RunPhase, RunReply, RunRequest, RunStep, RunStepModel, VariableModel,
};
use crate::output;
use crate::output::{OutputModel, ReaderOutcome, NEWLINE};
use crate::runtime;
use crate::runtime::{RuntimeModel, ShellModel};
use crate::stream::Progress;
use crate::terminal;
use crate::text;
use vstd::prelude::*;
use vstd::utf8::*;

verus! {

/// How a run goes on with one answer after the other, until it has ended or the answers
/// have run out.
pub open spec fn run_with(
    run: RunModel,
    replies: Seq<RunReply<Seq<char>>>,
    xid: Seq<char>,
) -> RunStepModel
    decreases replies.len(),
{
    if replies.len() == 0 {
        RunStep::Continue(run)
    } else {
        match run.after(replies[0], xid) {
            RunStep::Continue(next) => run_with(next, replies.skip(1), xid),
            ended => ended,
        }
    }
}

/// How many answers a run still waits for, at most.
pub open spec fn answers_left(run: RunModel) -> nat {
    match run.phase {
        RunPhase::Spawning => if run.args.background {
            4
        } else {
            2
        },
        RunPhase::Waiting { .. } => 1,
        RunPhase::Reporting { .. } => 3,
        RunPhase::Choosing { .. } => 2,
        RunPhase::Notifying { .. } => 1,
    }
}

/// True where a run is in a phase that its kind of run gets to.
pub open spec fn run_wf(run: RunModel) -> bool {
    match run.phase {
        RunPhase::Spawning => true,
        RunPhase::Waiting { .. } => !run.args.background,
        _ => run.args.background,
    }
}

/// The process is spawned with the runtime's shell on the command. It runs in the
/// directory that the request names, or else in the runtime's.
pub proof fn law_shell_is_spawned(
    runtime: RuntimeModel,
    named: Option<Seq<char>>,
    tool_name: Seq<char>,
    envs: Seq<(Seq<char>, Seq<char>)>,
    args: ArgsModel,
)
    ensures
        runtime.run(
            named,
            tool_name,
            runtime::shell_command(runtime.platform, args.command),
            envs,
            args,
        ).asks() matches RunRequest::Spawn(launch) && {
            &&& launch.program == encode_utf8(runtime.platform.spec_shell())
            &&& runtime.platform is Unix ==> launch.program == encode_utf8("sh"@)
                && launch.args[0] == encode_utf8("-c"@)
            &&& runtime.platform is Windows ==> launch.program == encode_utf8("cmd.exe"@)
                && launch.args[0] == encode_utf8("/C"@)
            &&& launch.args.len() == 2
            &&& launch.args.last() == encode_utf8(args.command)
            &&& launch.workspace == match named {
                Some(text) => encode_utf8(text),
                None => runtime.workspace,
            }
        },
{
}

/// Whatever command is run, the process has its program and its arguments, and runs in the
/// directory that the request names, or else in the runtime's.
pub proof fn law_given_command_is_spawned(
    runtime: RuntimeModel,
    named: Option<Seq<char>>,
    tool_name: Seq<char>,
    command: ShellModel,
    envs: Seq<(Seq<char>, Seq<char>)>,
    args: ArgsModel,
)
    ensures
        runtime.run(named, tool_name, command, envs, args).asks() matches RunRequest::Spawn(launch)
            && {
            &&& launch.program == command.program
            &&& launch.args == command.args
            &&& named matches Some(text) ==> launch.workspace == encode_utf8(text)
            &&& named is None ==> launch.workspace == runtime.workspace
            &&& launch.clear_env <==> !runtime.insecure
        },
        runtime.run(named, tool_name, command, envs, args).tool_name == tool_name,
        runtime.run(named, tool_name, command, envs, args).args == args,
{
}

/// A command without arguments of its own runs in the foreground, and others run as their
/// arguments say.
pub proof fn law_arguments_decide(args: ArgsModel)
    ensures
        !runtime::args_or_default(None).background,
        runtime::args_or_default(None).command == Seq::<char>::empty(),
        runtime::args_or_default(Some(args)) == args,
{
}

/// A change concerns its own variable alone: it has the value that it is set to, or is gone
/// where it is taken away.
pub proof fn law_one_change(
    variables: Map<Seq<u8>, Seq<u8>>,
    name: Seq<u8>,
    value: Option<Seq<u8>>,
    other: Seq<u8>,
)
    requires
        other != name,
    ensures
        ({
            let after = command::changed(variables, seq![(name, value)]);
            &&& after.contains_key(name) <==> value is Some
            &&& value matches Some(value) ==> after[name] == value
            &&& after.contains_key(other) <==> variables.contains_key(other)
            &&& after.contains_key(other) ==> after[other] == variables[other]
        }),
{
    let changes = seq![(name, value)];
    assert(changes.drop_last() == Seq::<VariableModel>::empty());
    assert(command::changed(variables, changes.drop_last()) == variables);
}

/// Changes that come later are made to what the earlier ones have left, so they win.
pub proof fn law_later_changes_win(
    variables: Map<Seq<u8>, Seq<u8>>,
    first: Seq<VariableModel>,
    second: Seq<VariableModel>,
)
    ensures
        command::changed(variables, first + second) == command::changed(
            command::changed(variables, first),
            second,
        ),
    decreases second.len(),
{
    if second.len() == 0 {
        assert(first + second == first);
    } else {
        law_later_changes_win(variables, first, second.drop_last());
        assert((first + second).drop_last() == first + second.drop_last());
    }
}

/// Variables that are set under different names all have the values that they were set
/// to, and the others are as they were.
pub proof fn law_settings_are_made(
    variables: Map<Seq<u8>, Seq<u8>>,
    envs: Seq<(Seq<char>, Seq<char>)>,
)
    requires
        forall|i: int, j: int|
            0 <= i < j < envs.len() ==> (#[trigger] envs[i]).0 != (#[trigger] envs[j]).0,
    ensures
        ({
            let after = command::changed(variables, runtime::settings(envs));
            &&& forall|i: int|
                0 <= i < envs.len() ==> #[trigger] after.contains_pair(
                    encode_utf8(envs[i].0),
                    encode_utf8(envs[i].1),
                )
            &&& forall|name: Seq<u8>|
                (forall|i: int| 0 <= i < envs.len() ==> encode_utf8((#[trigger] envs[i]).0) != name)
                    ==> {
                    &&& #[trigger] after.contains_key(name) == variables.contains_key(name)
                    &&& after.contains_key(name) ==> after[name] == variables[name]
                }
        }),
    decreases envs.len(),
{
    if envs.len() > 0 {
        let shorter = envs.drop_last();
        let last = envs[envs.len() - 1];
        assert forall|i: int, j: int| 0 <= i < j < shorter.len() implies (#[trigger] shorter[i]).0
            != (#[trigger] shorter[j]).0 by {
            assert(envs[i].0 != envs[j].0);
        }
        law_settings_are_made(variables, shorter);
        assert(runtime::settings(envs).drop_last() == runtime::settings(shorter));
        let before = command::changed(variables, runtime::settings(shorter));
        let after = command::changed(variables, runtime::settings(envs));
        assert(after == before.insert(encode_utf8(last.0), encode_utf8(last.1)));
        assert forall|i: int| 0 <= i < envs.len() implies #[trigger] after.contains_pair(
            encode_utf8(envs[i].0),
            encode_utf8(envs[i].1),
        ) by {
            if i < shorter.len() {
                assert(shorter[i] == envs[i]);
                assert(before.contains_pair(
                    encode_utf8(shorter[i].0),
                    encode_utf8(shorter[i].1),
                ));
                lemma_encoding_tells_apart(envs[i].0, last.0);
            }
        }
        assert forall|name: Seq<u8>|
            (forall|i: int| 0 <= i < envs.len() ==> encode_utf8((#[trigger] envs[i]).0)
                != name) implies {
            &&& #[trigger] after.contains_key(name) == variables.contains_key(name)
            &&& after.contains_key(name) ==> after[name] == variables[name]
        } by {
            assert(encode_utf8(envs[envs.len() - 1].0) != name);
            assert forall|i: int| 0 <= i < shorter.len() implies encode_utf8(
                (#[trigger] shorter[i]).0,
            ) != name by {
                assert(envs[i] == shorter[i]);
            }
            assert(before.contains_key(name) == variables.contains_key(name));
        }
    }
}

proof fn lemma_encoding_tells_apart(first: Seq<char>, second: Seq<char>)
    requires
        first != second,
    ensures
        encode_utf8(first) != encode_utf8(second),
{
    encode_utf8_decode_utf8(first);
    encode_utf8_decode_utf8(second);
}

/// The process of a runtime that is not insecure sees the variables that are given and no
/// others. That of an insecure one sees the runtime's own, changed as the command says and
/// after that as is given. Either way all that are given reach the process.
pub proof fn law_process_environment(
    runtime: RuntimeModel,
    named: Option<Seq<char>>,
    tool_name: Seq<char>,
    command: ShellModel,
    envs: Seq<(Seq<char>, Seq<char>)>,
    args: ArgsModel,
    own: Map<Seq<u8>, Seq<u8>>,
)
    requires
        forall|i: int, j: int|
            0 <= i < j < envs.len() ==> (#[trigger] envs[i]).0 != (#[trigger] envs[j]).0,
    ensures
        runtime.run(named, tool_name, command, envs, args).asks() matches RunRequest::Spawn(launch)
            && {
            let seen = launch.environment(own);
            &&& !runtime.insecure ==> seen == command::changed(
                Map::empty(),
                runtime::settings(envs),
            )
            &&& !runtime.insecure ==> forall|name: Seq<u8>| #[trigger]
                seen.contains_key(name) ==> exists|i: int|
                    0 <= i < envs.len() && encode_utf8((#[trigger] envs[i]).0) == name
            &&& runtime.insecure ==> seen == command::changed(
                command::changed(own, command.envs),
                runtime::settings(envs),
            )
            &&& forall|i: int|
                0 <= i < envs.len() ==> #[trigger] seen.contains_pair(
                    encode_utf8(envs[i].0),
                    encode_utf8(envs[i].1),
                )
        },
{
    law_later_changes_win(own, command.envs, runtime::settings(envs));
    law_settings_are_made(Map::empty(), envs);
    law_settings_are_made(command::changed(own, command.envs), envs);
    let seen = runtime.launch(named, command, envs).environment(own);
    if !runtime.insecure {
        assert forall|name: Seq<u8>| #[trigger] seen.contains_key(name) implies exists|i: int|
            0 <= i < envs.len() && encode_utf8((#[trigger] envs[i]).0) == name by {
            if forall|i: int| 0 <= i < envs.len() ==> encode_utf8((#[trigger] envs[i]).0) != name {
                assert(!Map::<Seq<u8>, Seq<u8>>::empty().contains_key(name));
            }
        }
    }
}

/// A run never changes what it spawns, whose tool it is, or whether it is one in the
/// background, and every phase that it gets to belongs to its kind.
pub proof fn law_run_keeps_its_launch(run: RunModel, reply: RunReply<Seq<char>>, xid: Seq<char>)
    requires
        run_wf(run),
    ensures
        run.after(reply, xid) matches RunStep::Continue(next) ==> {
            &&& run_wf(next)
            &&& next.launch == run.launch
            &&& next.tool_name == run.tool_name
            &&& next.args == run.args
            &&& answers_left(next) < answers_left(run)
        },
{
}

/// A run ends after a few answers, whatever they are. One in the foreground ends with a
/// report; one in the background ends with a report, or leaves its process to be followed.
pub proof fn law_run_ends(run: RunModel, replies: Seq<RunReply<Seq<char>>>, xid: Seq<char>)
    requires
        run_wf(run),
        replies.len() >= answers_left(run),
    ensures
        run_with(run, replies, xid) !is Continue,
        run_with(run, replies, xid) is Started ==> run.args.background,
    decreases replies.len(),
{
    law_run_keeps_its_launch(run, replies[0], xid);
    if let RunStep::Continue(next) = run.after(replies[0], xid) {
        law_run_ends(next, replies.skip(1), xid);
    }
}

/// The report that a run ends with names the directory that the process ran in.
pub proof fn law_final_report_names_its_workspace(
    run: RunModel,
    replies: Seq<RunReply<Seq<char>>>,
    xid: Seq<char>,
)
    ensures
        run_with(run, replies, xid) matches RunStep::Finished(report) ==> report.workspace == Some(
            text::as_text(run.launch.workspace),
        ),
    decreases replies.len(),
{
    if replies.len() > 0 {
        if let RunStep::Continue(next) = run.after(replies[0], xid) {
            law_final_report_names_its_workspace(next, replies.skip(1), xid);
        }
    }
}

/// A foreground run whose process is captured reports what was captured, in its
/// directory; where the process cannot be spawned or waited for, the report says so and
/// says why.
pub proof fn law_foreground_report(
    run: RunModel,
    process_id: Option<u32>,
    captured: OutputModel,
    error: Seq<char>,
    xid: Seq<char>,
)
    requires
        run.phase is Spawning,
        !run.args.background,
    ensures
        run_with(run, seq![RunReply::Spawned { process_id }, RunReply::Captured(captured)], xid)
            == RunStep::<LaunchModel, Seq<char>, Background>::Finished(
            command::in_workspace(captured, run.shown_workspace()),
        ),
        run_with(run, seq![RunReply::Failed(error)], xid) == RunStep::<
            LaunchModel,
            Seq<char>,
            Background,
        >::Finished(
            command::failure_report(
                None,
                run.shown_workspace(),
                "Failed to spawn process: "@ + error,
            ),
        ),
        run_with(run, seq![RunReply::Spawned { process_id }, RunReply::Failed(error)], xid)
            == RunStep::<LaunchModel, Seq<char>, Background>::Finished(
            command::failure_report(
                process_id,
                run.shown_workspace(),
                "Failed to execute background process: "@ + error,
            ),
        ),
{
    reveal_with_fuel(run_with, 3);
}

/// The report of a foreground run is the captured one, with nothing changed but the
/// directory. The report of a process that could not be spawned or waited for holds the
/// reason, the directory and the process where there is one, and nothing else.
pub proof fn law_foreground_report_fields(
    run: RunModel,
    process_id: Option<u32>,
    captured: OutputModel,
    error: Seq<char>,
    xid: Seq<char>,
)
    requires
        run.phase is Spawning,
        !run.args.background,
    ensures
        run_with(run, seq![RunReply::Spawned { process_id }, RunReply::Captured(captured)], xid)
            matches RunStep::Finished(report) && {
            &&& report.workspace == Some(text::as_text(run.launch.workspace))
            &&& report.process_id == captured.process_id
            &&& report.exit_status == captured.exit_status
            &&& report.stdout == captured.stdout
            &&& report.stderr == captured.stderr
            &&& report.raw_output_path == captured.raw_output_path
        },
        run_with(run, seq![RunReply::Failed(error)], xid) matches RunStep::Finished(report) && {
            &&& report.workspace == Some(text::as_text(run.launch.workspace))
            &&& report.process_id is None
            &&& report.exit_status is None
            &&& report.stdout is None
            &&& report.stderr == Some("Failed to spawn process: "@ + error)
            &&& report.raw_output_path is None
        },
        run_with(run, seq![RunReply::Spawned { process_id }, RunReply::Failed(error)], xid)
            matches RunStep::Finished(report) && {
            &&& report.workspace == Some(text::as_text(run.launch.workspace))
            &&& report.process_id == process_id
            &&& report.exit_status is None
            &&& report.stdout is None
            &&& report.stderr == Some("Failed to execute background process: "@ + error)
            &&& report.raw_output_path is None
        },
{
    reveal_with_fuel(run_with, 3);
}

/// A background process that could not be spawned is reported as one in the foreground is.
pub proof fn law_failed_background_spawn(run: RunModel, error: Seq<char>, xid: Seq<char>)
    requires
        run.phase is Spawning,
        run.args.background,
    ensures
        run_with(run, seq![RunReply::Failed(error)], xid) matches RunStep::Finished(report) && {
            &&& report.workspace == Some(text::as_text(run.launch.workspace))
            &&& report.process_id is None
            &&& report.exit_status is None
            &&& report.stdout is None
            &&& report.stderr == Some("Failed to spawn process: "@ + error)
            &&& report.raw_output_path is None
        },
{
    reveal_with_fuel(run_with, 2);
}

/// What a background run that is spawned goes through: the first report is asked for with
/// the task's id in it, the hooks are looked up, the start is made known with the id and the
/// arguments, and the run gives back the report as it was captured. The id is the tool's
/// name and the unique id, and the monitor has all of it.
pub proof fn law_background_start_fields(
    run: RunModel,
    process_id: Option<u32>,
    captured: OutputModel,
    has_json_hook: bool,
    has_typed_hook: bool,
    xid: Seq<char>,
)
    requires
        run.phase is Spawning,
        run.args.background,
    ensures
        ({
            let id = run.tool_name + ":"@ + xid;
            let spawned = RunReply::<Seq<char>>::Spawned { process_id };
            let hooks = RunReply::<Seq<char>>::Hooks { has_json_hook, has_typed_hook };
            &&& run.after(spawned, xid) matches RunStep::Continue(second)
            &&& second.asks() == (RunRequest::<LaunchModel, Seq<u8>, Seq<char>>::Capture {
                process_id,
                stdout: encode_utf8("Background process started with task ID "@ + id),
            })
            &&& second.after(RunReply::Captured(captured), xid) matches RunStep::Continue(third)
            &&& third.asks() is FindHooks
            &&& third.after(hooks, xid) matches RunStep::Continue(fourth)
            &&& fourth.asks() matches RunRequest::NotifyStart { target, task_id, args }
            &&& target == (if has_json_hook {
                HookTarget::Json
            } else if has_typed_hook {
                HookTarget::Typed
            } else {
                HookTarget::Nobody
            })
            &&& task_id == id
            &&& args == run.args
            &&& fourth.after(RunReply::Notified, xid) matches RunStep::Started(report, monitor)
            &&& report == captured
            &&& monitor.task_id == id
            &&& monitor.process_id == process_id
            &&& monitor.workspace == text::as_text(run.launch.workspace)
            &&& monitor.target == target
            &&& monitor.stdout.sent == 0 && monitor.stderr.sent == 0
            &&& monitor.stdout.screen.line == Seq::<char>::empty()
            &&& monitor.stderr.screen.line == Seq::<char>::empty()
        }),
{
}

/// A background run whose process is spawned asks for a report of its task id, makes the
/// start known to the hook that takes JSON, or else to the other one, with the arguments of the call, and hands the same
/// task id, process, directory and hook to the monitor. Its result is the report.
pub proof fn law_background_start(
    run: RunModel,
    process_id: Option<u32>,
    report: OutputModel,
    has_json_hook: bool,
    has_typed_hook: bool,
    xid: Seq<char>,
)
    requires
        run.phase is Spawning,
        run.args.background,
    ensures
        ({
            let id = command::task_id(run.tool_name, xid);
            let target = command::hook_target(has_json_hook, has_typed_hook);
            let hooks = RunReply::<Seq<char>>::Hooks { has_json_hook, has_typed_hook };
            let replies = seq![
                RunReply::Spawned { process_id },
                RunReply::Captured(report),
                hooks,
                RunReply::Notified,
            ];
            &&& run_with(run, replies.take(1), xid) matches RunStep::Continue(next)
                && next.asks() == (RunRequest::<LaunchModel, Seq<u8>, Seq<char>>::Capture {
                process_id,
                stdout: encode_utf8(command::started_message(id)),
            })
            &&& run_with(run, replies.take(3), xid) matches RunStep::Continue(next)
                && next.asks() == (RunRequest::<LaunchModel, Seq<u8>, Seq<char>>::NotifyStart {
                target,
                task_id: id,
                args: run.args,
            })
            &&& run_with(run, replies, xid) == RunStep::<
                LaunchModel,
                Seq<char>,
                Background,
            >::Started(
                report,
                Background {
                    task_id: id,
                    process_id,
                    workspace: run.shown_workspace(),
                    target,
                    stdout: Progress::start(),
                    stderr: Progress::start(),
                },
            )
        }),
{
    reveal_with_fuel(run_with, 5);
}

/// The id of a task begins with the tool's name and a colon.
pub proof fn law_task_id_names_the_tool(tool_name: Seq<char>, xid: Seq<char>)
    ensures
        (tool_name + seq![':']).is_prefix_of(command::task_id(tool_name, xid)),
        command::task_id(tool_name, xid).skip(tool_name.len() + 1int) == xid,
{
    reveal_strlit(":");
    let id = command::task_id(tool_name, xid);
    assert(":"@ == seq![':']);
    assert(id.take(tool_name.len() + 1int) == tool_name + seq![':']);
    assert(id.skip(tool_name.len() + 1int) == xid);
}

/// Two tasks of a tool have different ids where their unique ids differ.
pub proof fn law_task_ids_differ(tool_name: Seq<char>, first: Seq<char>, second: Seq<char>)
    requires
        first != second,
    ensures
        command::task_id(tool_name, first) != command::task_id(tool_name, second),
{
    law_task_id_names_the_tool(tool_name, first);
    law_task_id_names_the_tool(tool_name, second);
}

/// What is made known as progress belongs to the task and its process, goes to whoever
/// heard of the start, says something, and says nothing of how the process ended.
pub proof fn law_progress_belongs_to_its_task(
    monitor: Background,
    stdout: Seq<u8>,
    stderr: Seq<u8>,
)
    ensures
        monitor.on_tick(stdout, stderr) matches Some(notice) ==> {
            &&& notice.target == monitor.target
            &&& notice.task_id == monitor.task_id
            &&& notice.output.process_id == monitor.process_id
            &&& notice.output.workspace == Some(monitor.workspace)
            &&& notice.output.exit_status is None
            &&& notice.output.stdout is Some || notice.output.stderr is Some
        },
        ({
            let next = monitor.looked(stdout, stderr);
            &&& next.task_id == monitor.task_id
            &&& next.process_id == monitor.process_id
            &&& next.workspace == monitor.workspace
            &&& next.target == monitor.target
        }),
{
}

/// A look makes known what each output shows, each in its place, and nothing where neither
/// shows anything. Both outputs are taken up, whether they show anything or not.
pub proof fn law_progress_is_what_is_shown(
    monitor: Background,
    stdout: Seq<u8>,
    stderr: Seq<u8>,
)
    ensures
        ({
            let out = monitor.stdout.next(stdout);
            let err = monitor.stderr.next(stderr);
            let after = monitor.looked(stdout, stderr);
            &&& monitor.on_tick(stdout, stderr) is None <==> out.1 is None && err.1 is None
            &&& monitor.on_tick(stdout, stderr) matches Some(notice) ==> {
                &&& notice.output.stdout == out.1
                &&& notice.output.stderr == err.1
                &&& notice.output.raw_output_path is None
            }
            &&& after.stdout == out.0
            &&& after.stderr == err.0
        }),
{
}

/// New output that is UTF-8 and rewrites nothing is made known as its own text.
pub proof fn law_new_text_is_made_known(monitor: Background, stdout: Seq<u8>, stderr: Seq<u8>)
    ensures
        ({
            let chunk = monitor.stdout.chunk(stdout);
            valid_utf8(chunk) && chunk.len() > 0 && !terminal::rewrites(decode_utf8(chunk)) ==> (
            monitor.on_tick(stdout, stderr) matches Some(notice) && notice.output.stdout == Some(
                decode_utf8(chunk),
            ))
        }),
        ({
            let chunk = monitor.stderr.chunk(stderr);
            valid_utf8(chunk) && chunk.len() > 0 && !terminal::rewrites(decode_utf8(chunk)) ==> (
            monitor.on_tick(stdout, stderr) matches Some(notice) && notice.output.stderr == Some(
                decode_utf8(chunk),
            ))
        }),
{
    let out = monitor.stdout.chunk(stdout);
    let err = monitor.stderr.chunk(stderr);
    if valid_utf8(out) && out.len() > 0 {
        decode_utf8_encode_utf8(out);
        if decode_utf8(out).len() == 0 {
            assert(encode_utf8(decode_utf8(out)).len() == 0);
        }
    }
    if valid_utf8(err) && err.len() > 0 {
        decode_utf8_encode_utf8(err);
        if decode_utf8(err).len() == 0 {
            assert(encode_utf8(decode_utf8(err)).len() == 0);
        }
    }
}

/// What is made known as the end belongs to the task and its directory, and goes to
/// whoever heard of the start.
pub proof fn law_end_belongs_to_its_task(
    monitor: Background,
    error: Seq<char>,
    stdout: Seq<u8>,
    stderr: Seq<u8>,
    captured: OutputModel,
)
    ensures
        monitor.on_exit(None, stdout, stderr) matches BackgroundExit::Capture { ending, .. } && {
            let notice = ending.on_captured(captured);
            &&& notice.target == monitor.target
            &&& notice.task_id == monitor.task_id
            &&& notice.output.workspace == Some(monitor.workspace)
            &&& notice.output.process_id == captured.process_id
            &&& notice.output.exit_status == captured.exit_status
            &&& notice.output.stdout == captured.stdout
            &&& notice.output.stderr == captured.stderr
            &&& notice.output.raw_output_path == captured.raw_output_path
        },
        monitor.on_exit(Some(error), stdout, stderr) matches BackgroundExit::End(notice) && {
            &&& notice.target == monitor.target
            &&& notice.task_id == monitor.task_id
            &&& notice.output.workspace == Some(monitor.workspace)
            &&& notice.output.process_id == monitor.process_id
            &&& notice.output.exit_status is None
            &&& notice.output.raw_output_path is None
            &&& notice.output.stdout == output::non_empty(text::as_text(stdout))
            &&& notice.output.stderr == output::non_empty(
                text::as_text(command::failed_stderr(error, stderr)),
            )
        },
{
}

/// The life of a task in the background.
pub enum Life {
    /// Its process is followed.
    Running(Background),
    /// Its process has ended, and the output is being captured.
    Capturing(Ending),
    /// It is over.
    Over,
}

/// Something that happens to a task in the background.
pub enum LifeEvent {
    /// Its outputs are looked at.
    Look { stdout: Seq<u8>, stderr: Seq<u8> },
    /// Its process has ended, or could not be waited for.
    Exit { error: Option<Seq<char>>, stdout: Seq<u8>, stderr: Seq<u8> },
    /// Its output has been captured.
    Captured(OutputModel),
}

/// What is heard of a task in the background.
pub enum Heard {
    Progress(NoticeModel),
    End(NoticeModel),
}

impl Heard {
    /// The report that is made known.
    pub open spec fn notice(self) -> NoticeModel {
        match self {
            Heard::Progress(notice) => notice,
            Heard::End(notice) => notice,
        }
    }
}

impl Life {
    /// How the task goes on, and what is heard of it. What has no place in its life
    /// changes nothing.
    pub open spec fn after(self, event: LifeEvent) -> (Life, Option<Heard>) {
        match (self, event) {
            (Life::Running(monitor), LifeEvent::Look { stdout, stderr }) => (
                Life::Running(monitor.looked(stdout, stderr)),
                match monitor.on_tick(stdout, stderr) {
                    Some(notice) => Some(Heard::Progress(notice)),
                    None => None,
                },
            ),
            (Life::Running(monitor), LifeEvent::Exit { error, stdout, stderr }) =>
                match monitor.on_exit(error, stdout, stderr) {
                BackgroundExit::Capture { ending, .. } => (Life::Capturing(ending), None),
                BackgroundExit::End(notice) => (Life::Over, Some(Heard::End(notice))),
            },
            (Life::Capturing(ending), LifeEvent::Captured(output)) => (
                Life::Over,
                Some(Heard::End(ending.on_captured(output))),
            ),
            _ => (self, None),
        }
    }

    /// How the task goes on with one event after the other, and all that is heard of it.
    pub open spec fn lived(self, events: Seq<LifeEvent>) -> (Life, Seq<Heard>)
        decreases events.len(),
    {
        if events.len() == 0 {
            (self, Seq::empty())
        } else {
            let (before, heard) = self.lived(events.drop_last());
            let (after, more) = before.after(events.last());
            (
                after,
                match more {
                    Some(more) => heard.push(more),
                    None => heard,
                },
            )
        }
    }

    /// The task and its hook.
    pub open spec fn belongs_to(self, task_id: Seq<char>, target: HookTarget) -> bool {
        match self {
            Life::Running(monitor) => monitor.task_id == task_id && monitor.target == target,
            Life::Capturing(ending) => ending.task_id == task_id && ending.target == target,
            Life::Over => true,
        }
    }
}

/// Whatever happens to a task, its end is heard of at most once, and nothing is heard of
/// it after that. It is over exactly when its end has been heard of. All that is heard
/// belongs to the task and goes to whoever heard of its start.
pub proof fn law_task_ends_once(monitor: Background, events: Seq<LifeEvent>)
    ensures
        ({
            let (life, heard) = Life::Running(monitor).lived(events);
            &&& forall|i: int| 0 <= i < heard.len() && (#[trigger] heard[i]) is End ==> i
                == heard.len() - 1
            &&& life is Over <==> heard.len() > 0 && heard.last() is End
            &&& forall|i: int|
                0 <= i < heard.len() ==> (#[trigger] heard[i]).notice().task_id == monitor.task_id
                    && heard[i].notice().target == monitor.target
            &&& life.belongs_to(monitor.task_id, monitor.target)
        }),
    decreases events.len(),
{
    if events.len() > 0 {
        law_task_ends_once(monitor, events.drop_last());
        let (before, heard) = Life::Running(monitor).lived(events.drop_last());
        let (_, more) = before.after(events.last());
        if let Some(more) = more {
            assert(before !is Over);
            assert forall|i: int|
                0 <= i < heard.push(more).len() && (#[trigger] heard.push(more)[i]) is End implies i
                == heard.push(more).len() - 1 by {
                if i < heard.len() {
                    assert(heard[i] is End);
                }
            }
        }
    }
}

/// A task whose process has ended comes to its end: at once where the process could not be
/// waited for, and otherwise with its captured output.
pub proof fn law_task_comes_to_its_end(
    monitor: Background,
    events: Seq<LifeEvent>,
    error: Seq<char>,
    stdout: Seq<u8>,
    stderr: Seq<u8>,
    captured: OutputModel,
)
    requires
        Life::Running(monitor).lived(events).0 is Running,
    ensures
        ({
            let start = Life::Running(monitor);
            let failed = LifeEvent::Exit { error: Some(error), stdout, stderr };
            let ended = LifeEvent::Exit { error: None, stdout, stderr };
            let (failed_life, failed_heard) = start.lived(events.push(failed));
            let (ended_life, ended_heard) = start.lived(
                events.push(ended).push(LifeEvent::Captured(captured)),
            );
            &&& failed_life is Over
            &&& failed_heard.last() is End
            &&& ended_life is Over
            &&& ended_heard.last() is End
            &&& ended_heard.last().notice().output.process_id == captured.process_id
            &&& ended_heard.last().notice().output.exit_status == captured.exit_status
            &&& ended_heard.last().notice().output.stdout == captured.stdout
            &&& ended_heard.last().notice().output.stderr == captured.stderr
            &&& ended_heard.last().notice().output.raw_output_path == captured.raw_output_path
            &&& ended_heard.drop_last() == start.lived(events).1
        }),
{
    let failed = LifeEvent::Exit { error: Some(error), stdout, stderr };
    let ended = LifeEvent::Exit { error: None, stdout, stderr };
    let capture = LifeEvent::Captured(captured);
    assert(events.push(failed).drop_last() == events);
    assert(events.push(ended).drop_last() == events);
    assert(events.push(ended).push(capture).drop_last() == events.push(ended));
    let start = Life::Running(monitor);
    let (life, heard) = start.lived(events);
    assert(start.lived(events.push(ended)) == (life.after(ended).0, heard));
    if let Life::Capturing(ending) = life.after(ended).0 {
        let last = Heard::End(ending.on_captured(captured));
        assert(start.lived(events.push(ended).push(capture)).1 == heard.push(last));
        assert(heard.push(last).drop_last() == heard);
    }
}

/// The end of a process takes up all that it wrote: its whole output, and its whole error
/// output before anything else that is reported there.
pub proof fn law_written_output_is_kept(
    monitor: Background,
    stdout: Seq<u8>,
    stderr: Seq<u8>,
    stdout_reader: ReaderOutcome<Seq<char>>,
    stderr_reader: ReaderOutcome<Seq<char>>,
)
    ensures
        stderr.is_prefix_of(command::final_stderr(stderr, stdout_reader, stderr_reader)),
        stdout_reader is Finished && stderr_reader is Finished ==> command::final_stderr(
            stderr,
            stdout_reader,
            stderr_reader,
        ) == stderr,
        monitor.on_exit(
            None,
            stdout,
            command::final_stderr(stderr, stdout_reader, stderr_reader),
        ) matches BackgroundExit::Capture { process_id, stdout: out, stderr: err, .. } && {
            &&& process_id == monitor.process_id
            &&& out == stdout
            &&& err == command::final_stderr(stderr, stdout_reader, stderr_reader)
        },
{
    let first_error = output::reader_error(stdout_reader, "stdout"@);
    let middle = command::with_optional_error(stderr, first_error);
    if let Some(error) = first_error {
        output::law_read_error_is_appended(stderr, error);
    }
    assert(stderr.is_prefix_of(middle));
    let second_error = output::reader_error(stderr_reader, "stderr"@);
    let all = command::with_optional_error(middle, second_error);
    if let Some(error) = second_error {
        output::law_read_error_is_appended(middle, error);
    }
    assert(middle.is_prefix_of(all));
    assert(stderr == all.subrange(0, stderr.len() as int));
}

/// Errors of the reading follow the error output, that of the output before that of the
/// error output, each on a line of its own.
pub proof fn law_read_errors_follow_in_order(stderr: Seq<u8>, first: Seq<char>, second: Seq<char>)
    requires
        stderr.len() > 0 ==> stderr.last() == NEWLINE,
    ensures
        ({
            let out = encode_utf8("Failed to read background stdout: "@ + first);
            let err = encode_utf8("Failed to read background stderr: "@ + second);
            let out_joined = encode_utf8("Failed to join background stdout reader: "@ + first);
            let err_joined = encode_utf8("Failed to join background stderr reader: "@ + second);
            let none = ReaderOutcome::<Seq<char>>::Finished;
            let out_read = ReaderOutcome::ReadFailed(first);
            let err_read = ReaderOutcome::ReadFailed(second);
            &&& command::final_stderr(stderr, out_read, none) == stderr + out
            &&& command::final_stderr(stderr, none, err_read) == stderr + err
            &&& command::final_stderr(stderr, ReaderOutcome::JoinFailed(first), none) == stderr
                + out_joined
            &&& command::final_stderr(stderr, none, ReaderOutcome::JoinFailed(second)) == stderr
                + err_joined
            &&& command::final_stderr(stderr, none, none) == stderr
            &&& out.len() > 0 && out.last() != NEWLINE ==> command::final_stderr(
                stderr,
                out_read,
                err_read,
            ) == stderr + out + seq![NEWLINE] + err
        }),
{
    reveal_strlit("Failed to read background ");
    reveal_strlit("Failed to join background ");
    reveal_strlit("stdout");
    reveal_strlit("stderr");
    reveal_strlit(": ");
    reveal_strlit(" reader: ");
    reveal_strlit("Failed to read background stdout: ");
    reveal_strlit("Failed to read background stderr: ");
    reveal_strlit("Failed to join background stdout reader: ");
    reveal_strlit("Failed to join background stderr reader: ");
    assert("Failed to read background "@ + "stdout"@ + ": "@ == "Failed to read background stdout: "@);
    assert("Failed to read background "@ + "stderr"@ + ": "@ == "Failed to read background stderr: "@);
    assert("Failed to join background "@ + "stdout"@ + " reader: "@
        == "Failed to join background stdout reader: "@);
    assert("Failed to join background "@ + "stderr"@ + " reader: "@
        == "Failed to join background stderr reader: "@);
    let out = encode_utf8("Failed to read background stdout: "@ + first);
    let err = encode_utf8("Failed to read background stderr: "@ + second);
    if out.len() > 0 {
        assert((stderr + out).last() == out.last());
        assert((stderr + out).push(NEWLINE) + err == stderr + out + seq![NEWLINE] + err);
    }
}

/// Whatever the error output ends with, each error of the reading is appended as one is,
/// that of the output first.
pub proof fn law_read_errors_are_appended(
    stderr: Seq<u8>,
    stdout_reader: ReaderOutcome<Seq<char>>,
    stderr_reader: ReaderOutcome<Seq<char>>,
)
    ensures
        ({
            let none = ReaderOutcome::<Seq<char>>::Finished;
            let after_stdout = command::final_stderr(stderr, stdout_reader, none);
            &&& command::final_stderr(stderr, stdout_reader, stderr_reader)
                == command::final_stderr(after_stdout, none, stderr_reader)
            &&& stdout_reader is Finished ==> after_stdout == stderr
            &&& stdout_reader matches ReaderOutcome::ReadFailed(reason) ==> after_stdout
                == output::with_read_error(stderr, "Failed to read background stdout: "@ + reason)
            &&& stdout_reader matches ReaderOutcome::JoinFailed(reason) ==> after_stdout
                == output::with_read_error(
                stderr,
                "Failed to join background stdout reader: "@ + reason,
            )
            &&& stderr_reader matches ReaderOutcome::ReadFailed(reason) ==> command::final_stderr(
                stderr,
                none,
                stderr_reader,
            ) == output::with_read_error(stderr, "Failed to read background stderr: "@ + reason)
            &&& stderr_reader matches ReaderOutcome::JoinFailed(reason) ==> command::final_stderr(
                stderr,
                none,
                stderr_reader,
            ) == output::with_read_error(
                stderr,
                "Failed to join background stderr reader: "@ + reason,
            )
        }),
{
    reveal_strlit("Failed to read background ");
    reveal_strlit("Failed to join background ");
    reveal_strlit("stdout");
    reveal_strlit("stderr");
    reveal_strlit(": ");
    reveal_strlit(" reader: ");
    reveal_strlit("Failed to read background stdout: ");
    reveal_strlit("Failed to read background stderr: ");
    reveal_strlit("Failed to join background stdout reader: ");
    reveal_strlit("Failed to join background stderr reader: ");
    assert("Failed to read background "@ + "stdout"@ + ": "@ == "Failed to read background stdout: "@);
    assert("Failed to read background "@ + "stderr"@ + ": "@ == "Failed to read background stderr: "@);
    assert("Failed to join background "@ + "stdout"@ + " reader: "@
        == "Failed to join background stdout reader: "@);
    assert("Failed to join background "@ + "stderr"@ + " reader: "@
        == "Failed to join background stderr reader: "@);
}

/// The report of a process that could not be waited for gives the reason first, and the
/// whole error output of the process after it.
pub proof fn law_failed_wait_keeps_the_error_output(error: Seq<char>, stderr: Seq<u8>)
    ensures
        ({
            let message = encode_utf8("Failed to execute background process: "@ + error);
            let all = command::failed_stderr(error, stderr);
            &&& message.is_prefix_of(all)
            &&& stderr.len() > 0 ==> all[message.len() as int] == NEWLINE
            &&& stderr.len() > 0 ==> all.skip(message.len() + 1int) == stderr
        }),
{
    let message = encode_utf8("Failed to execute background process: "@ + error);
    let all = command::failed_stderr(error, stderr);
    assert(message == all.subrange(0, message.len() as int));
    if stderr.len() > 0 {
        assert(all.skip(message.len() + 1int) == stderr);
    }
}

/// Where a process that could not be waited for wrote text, its report gives the output as
/// that text, and the reason followed by the error output on lines of their own.
pub proof fn law_failed_wait_reports_text(
    monitor: Background,
    error: Seq<char>,
    stdout: Seq<u8>,
    stderr: Seq<u8>,
    stdout_reader: ReaderOutcome<Seq<char>>,
    stderr_reader: ReaderOutcome<Seq<char>>,
)
    requires
        valid_utf8(stdout),
        valid_utf8(stderr),
    ensures
        ({
            let all = command::final_stderr(stderr, stdout_reader, stderr_reader);
            let reason = "Failed to execute background process: "@ + error;
            &&& valid_utf8(all)
            &&& monitor.on_exit(Some(error), stdout, all) matches BackgroundExit::End(notice)
            &&& notice.output.stdout == output::non_empty(decode_utf8(stdout))
            &&& notice.output.stderr == Some(
                if all.len() == 0 {
                    reason
                } else {
                    reason + seq!['\n'] + decode_utf8(all)
                },
            )
        }),
{
    let first_error = output::reader_error(stdout_reader, "stdout"@);
    let middle = command::with_optional_error(stderr, first_error);
    if let Some(first) = first_error {
        output::law_read_error_is_text(stderr, first);
    }
    if let Some(second) = output::reader_error(stderr_reader, "stderr"@) {
        output::law_read_error_is_text(middle, second);
    }
    let all = command::final_stderr(stderr, stdout_reader, stderr_reader);
    let reason = "Failed to execute background process: "@ + error;
    reveal_strlit("Failed to execute background process: ");
    let message = encode_utf8(reason);
    encode_utf8_valid_utf8(reason);
    encode_utf8_decode_utf8(reason);
    if all.len() > 0 {
        output::lemma_newline();
        assert(message.push(NEWLINE) == message + seq![NEWLINE]);
        text::lemma_decode_append(message, seq![NEWLINE]);
        text::lemma_decode_append(message + seq![NEWLINE], all);
    }
}

} // verus!
