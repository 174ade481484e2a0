use anda_core::RequestMeta;
use anda_extension::command::{
    choose_hook, task_id_with, BackgroundExit, BackgroundMonitor, CommandRun, ExecArgs,
    HookTarget, LaunchPlan, RunReply, RunRequest, RunStep, Variable,
};
use anda_extension::output::{
    accept_output_chunk, append_output_read_error, output_bytes_to_exec_output,
    output_chunks_to_exec_output, output_reader_error, ExecOutput, ReaderOutcome,
};
use anda_extension::path::PosixPath;
use anda_extension::runtime::{
    NativeRuntime, Platform, BACKGROUND_PROGRESS_INTERVAL_SECS, OUTPUT_READ_CHUNK_BYTES,
};
use serde_json::Value;

fn posix(text: &str) -> PosixPath {
    PosixPath::from_text(text)
}

fn runtime() -> NativeRuntime {
    NativeRuntime::new(
        posix("/home/anda-native-runtime-tests"),
        posix("/tmp"),
        Platform::Unix,
    )
}

fn args(command: &str, background: bool) -> ExecArgs<String> {
    ExecArgs { command: command.to_string(), background }
}

fn set(name: &str, value: &str) -> Variable {
    (name.as_bytes().to_vec(), Some(value.as_bytes().to_vec()))
}

fn report(stdout: &str) -> ExecOutput<String> {
    ExecOutput {
        process_id: Some(7),
        exit_status: Some("exit status: 0".to_string()),
        stdout: Some(stdout.to_string()),
        ..Default::default()
    }
}

fn go_on(
    run: CommandRun<LaunchPlan, String>,
    reply: RunReply<String>,
) -> CommandRun<LaunchPlan, String> {
    match run.reply(reply) {
        RunStep::Continue(next) => next,
        _ => panic!("the run has ended"),
    }
}

fn finished(run: CommandRun<LaunchPlan, String>, reply: RunReply<String>) -> ExecOutput<String> {
    match run.reply(reply) {
        RunStep::Finished(output) => output,
        _ => panic!("the run has not finished"),
    }
}

/// A background run that has been started, with its task id.
fn started(has_json_hook: bool, has_typed_hook: bool) -> (String, BackgroundMonitor) {
    let run = runtime().execute(&RequestMeta::default(), args("sleep 1", true), Vec::new());
    let run = go_on(run, RunReply::Spawned { process_id: Some(7) });
    let message = match run.request() {
        RunRequest::Capture { process_id, stdout } => {
            assert_eq!(process_id, Some(7));
            String::from_utf8(stdout).unwrap()
        }
        _ => panic!("no report is asked for"),
    };
    let prefix = "Background process started with task ID ";
    assert!(message.starts_with(prefix));
    let id = message[prefix.len()..].to_string();
    let run = go_on(run, RunReply::Captured(report(&message)));
    assert!(matches!(run.request(), RunRequest::FindHooks));
    let run = go_on(run, RunReply::Hooks { has_json_hook, has_typed_hook });
    match run.request() {
        RunRequest::NotifyStart { target, task_id, args } => {
            assert_eq!(args.command, "sleep 1");
            assert!(args.background);
            assert_eq!(target, choose_hook(has_json_hook, has_typed_hook));
            assert_eq!(task_id, id);
        }
        _ => panic!("the start is not made known"),
    }
    match run.reply(RunReply::Notified) {
        RunStep::Started(output, monitor) => {
            assert_eq!(output.stdout, Some(message));
            assert_eq!(output.workspace, None);
            (id, monitor)
        }
        _ => panic!("the run has not started"),
    }
}

#[test]
fn new_initializes_paths_and_shell() {
    let runtime = runtime();

    assert_eq!(runtime.name(), "shell");
    assert_eq!(
        runtime.workspace().as_bytes(),
        posix("/home/anda-native-runtime-tests").as_bytes()
    );
}

#[test]
fn the_shell_belongs_to_the_platform() {
    assert_eq!(runtime().shell(), "sh");
    let windows = NativeRuntime::new(posix("w"), posix("t"), Platform::Windows);
    assert_eq!(windows.shell(), "cmd.exe");
    let command = NativeRuntime::build_shell_command(Platform::Unix, "echo hi");
    assert_eq!(command.program, b"sh");
    assert_eq!(command.args, [b"-c".to_vec(), b"echo hi".to_vec()]);
    assert!(command.envs.is_empty());
    let command = NativeRuntime::build_shell_command(Platform::Windows, "dir");
    assert_eq!(command.program, b"cmd.exe");
    assert_eq!(command.args, [b"/C".to_vec(), b"dir".to_vec()]);
}

#[test]
fn builders_change_one_thing() {
    assert_eq!(runtime().output_dir().display(), "/tmp");
    let moved = runtime().temp_dir(posix("/var/tmp"));
    assert_eq!(moved.output_dir().display(), "/var/tmp");
    assert_eq!(moved.workspace().display(), "/home/anda-native-runtime-tests");
    let open = moved.insecure();
    assert_eq!(open.output_dir().display(), "/var/tmp");
    let run = open.execute(&RequestMeta::default(), args("true", false), Vec::new());
    match run.request() {
        RunRequest::Spawn(launch) => assert!(!launch.clear_env),
        _ => panic!("nothing is spawned"),
    }
}

#[test]
fn a_command_is_spawned_in_the_workspace() {
    let envs = vec![("KEY".to_string(), "value".to_string())];
    let run = runtime().execute(&RequestMeta::default(), args("printf x", false), envs);
    match run.request() {
        RunRequest::Spawn(launch) => {
            assert_eq!(launch.program, b"sh");
            assert_eq!(launch.args, [b"-c".to_vec(), b"printf x".to_vec()]);
            assert_eq!(launch.envs, [set("KEY", "value")]);
            assert_eq!(launch.workspace.display(), "/home/anda-native-runtime-tests");
            assert!(launch.clear_env);
        }
        _ => panic!("nothing is spawned"),
    }
}

/// The variables that the process of a command sees, for a command that changes some.
fn environment(runtime: NativeRuntime) -> std::collections::BTreeMap<Vec<u8>, Vec<u8>> {
    let mut command = NativeRuntime::build_shell_command(Platform::Unix, "env");
    command.envs = vec![set("COMMAND", "c"), set("BOTH", "c"), (b"GONE".to_vec(), None)];
    let envs = vec![
        ("GIVEN".to_string(), "g".to_string()),
        ("BOTH".to_string(), "g".to_string()),
    ];
    let run = runtime.execute_command_in(None, "tool", command, envs, None);
    let launch = match run.request() {
        RunRequest::Spawn(launch) => launch,
        _ => panic!("nothing is spawned"),
    };
    let mut seen = std::collections::BTreeMap::new();
    if !launch.clear_env {
        seen.insert(b"OWN".to_vec(), b"o".to_vec());
        seen.insert(b"GONE".to_vec(), b"o".to_vec());
        seen.insert(b"COMMAND".to_vec(), b"o".to_vec());
    }
    for (name, value) in launch.envs {
        match value {
            Some(value) => seen.insert(name, value),
            None => seen.remove(&name),
        };
    }
    seen
}

#[test]
fn a_process_sees_the_given_variables_alone() {
    let seen = environment(runtime());
    assert_eq!(seen.len(), 2);
    assert_eq!(seen[b"GIVEN".as_slice()], b"g");
    assert_eq!(seen[b"BOTH".as_slice()], b"g");
}

#[test]
fn an_insecure_process_sees_all_variables() {
    let seen = environment(runtime().insecure());
    assert_eq!(seen.len(), 4);
    assert_eq!(seen[b"OWN".as_slice()], b"o");
    assert_eq!(seen[b"COMMAND".as_slice()], b"c");
    assert_eq!(seen[b"GIVEN".as_slice()], b"g");
    assert_eq!(seen[b"BOTH".as_slice()], b"g");
}

#[test]
fn a_request_names_another_workspace() {
    let mut meta = RequestMeta::default();
    meta.extra.insert("workspace".to_string(), Value::String("/other".to_string()));
    let run = runtime().execute(&meta, args("true", false), Vec::new());
    match run.request() {
        RunRequest::Spawn(launch) => assert_eq!(launch.workspace.display(), "/other"),
        _ => panic!("nothing is spawned"),
    }
    let run = go_on(run, RunReply::Spawned { process_id: None });
    let output = finished(run, RunReply::Captured(report("x")));
    assert_eq!(output.workspace.as_deref(), Some("/other"));

    meta.extra.insert("workspace".to_string(), Value::Array(Vec::new()));
    let run = runtime().execute(&meta, args("true", false), Vec::new());
    match run.request() {
        RunRequest::Spawn(launch) => {
            assert_eq!(launch.workspace.display(), "/home/anda-native-runtime-tests")
        }
        _ => panic!("nothing is spawned"),
    }

    let command = NativeRuntime::build_shell_command(Platform::Unix, "true");
    let run = runtime().execute_command_in(
        Some("/named".to_string()),
        "tool",
        command,
        Vec::new(),
        None,
    );
    match run.request() {
        RunRequest::Spawn(launch) => assert_eq!(launch.workspace.display(), "/named"),
        _ => panic!("nothing is spawned"),
    }
}

#[test]
fn a_command_without_arguments_runs_in_the_foreground() {
    let command = NativeRuntime::build_shell_command(Platform::Unix, "true");
    let run = runtime().execute_command(
        &RequestMeta::default(),
        "tool",
        command,
        Vec::new(),
        None,
    );
    let run = go_on(run, RunReply::Spawned { process_id: Some(7) });
    assert!(matches!(run.request(), RunRequest::Wait));
    let default = ExecArgs::default();
    assert_eq!(default.command, "");
    assert!(!default.background);
}

#[test]
fn a_foreground_command_reports_what_was_captured() {
    let run = runtime().execute(&RequestMeta::default(), args("true", false), Vec::new());
    let run = go_on(run, RunReply::Spawned { process_id: Some(7) });
    let output = finished(run, RunReply::Captured(report("done")));
    assert_eq!(output.workspace.as_deref(), Some("/home/anda-native-runtime-tests"));
    assert_eq!(output.process_id, Some(7));
    assert_eq!(output.exit_status.as_deref(), Some("exit status: 0"));
    assert_eq!(output.stdout.as_deref(), Some("done"));
    assert_eq!(output.stderr, None);
    assert_eq!(output.raw_output_path, None);
}

#[test]
fn failures_are_reported() {
    for background in [false, true] {
        let run = runtime().execute(&RequestMeta::default(), args("true", background), Vec::new());
        let output = finished(run, RunReply::Failed("no shell".to_string()));
        assert_eq!(output.stderr.as_deref(), Some("Failed to spawn process: no shell"));
        assert_eq!(output.workspace.as_deref(), Some("/home/anda-native-runtime-tests"));
        assert_eq!(output.process_id, None);
        assert_eq!(output.stdout, None);
    }
    let run = runtime().execute(&RequestMeta::default(), args("true", false), Vec::new());
    let run = go_on(run, RunReply::Spawned { process_id: Some(7) });
    let output = finished(run, RunReply::Failed("lost".to_string()));
    assert_eq!(
        output.stderr.as_deref(),
        Some("Failed to execute background process: lost")
    );
    assert_eq!(output.process_id, Some(7));
    assert_eq!(output.exit_status, None);
}

#[test]
fn task_ids_name_the_tool_and_differ() {
    assert_eq!(task_id_with("shell", "abc"), "shell:abc");
    let (first, _) = started(false, false);
    let (second, _) = started(false, false);
    assert!(first.starts_with("shell:"));
    assert_eq!(first.len(), "shell:".len() + 20);
    assert!(first["shell:".len()..]
        .chars()
        .all(|c| c.is_ascii_digit() || ('a'..='v').contains(&c)));
    assert_ne!(first, second);
}

#[test]
fn a_given_id_names_the_task() {
    let run = runtime().execute(&RequestMeta::default(), args("true", true), Vec::new());
    match run.reply_with(RunReply::Spawned { process_id: None }, "xyz") {
        RunStep::Continue(run) => match run.request() {
            RunRequest::Capture { stdout, .. } => assert_eq!(
                stdout,
                b"Background process started with task ID shell:xyz".to_vec()
            ),
            _ => panic!("no report is asked for"),
        },
        _ => panic!("the run has ended"),
    }
}

#[test]
fn the_json_hook_goes_first() {
    assert_eq!(choose_hook(true, true), HookTarget::Json);
    assert_eq!(choose_hook(true, false), HookTarget::Json);
    assert_eq!(choose_hook(false, true), HookTarget::Typed);
    assert_eq!(choose_hook(false, false), HookTarget::Nobody);
}

#[test]
fn progress_belongs_to_the_task() {
    let (id, mut monitor) = started(true, true);
    assert!(monitor.on_tick(b"", b"").is_none());
    let progress = monitor.on_tick(b"progress-out\n", b"progress-err\n").unwrap();
    assert_eq!(progress.target, HookTarget::Json);
    assert_eq!(progress.task_id, id);
    assert_eq!(progress.output.process_id, Some(7));
    assert_eq!(progress.output.exit_status, None);
    assert_eq!(progress.output.stdout.as_deref(), Some("progress-out\n"));
    assert_eq!(progress.output.stderr.as_deref(), Some("progress-err\n"));
    assert_eq!(
        progress.output.workspace.as_deref(),
        Some("/home/anda-native-runtime-tests")
    );
    assert!(monitor.on_tick(b"progress-out\n", b"progress-err\n").is_none());
    let progress = monitor.on_tick(b"progress-out\nmore", b"progress-err\n").unwrap();
    assert_eq!(progress.task_id, id);
    assert_eq!(progress.output.stdout.as_deref(), Some("more"));
    assert_eq!(progress.output.stderr, None);
}

#[test]
fn the_end_belongs_to_the_task() {
    let (id, monitor) = started(false, true);
    let finished = ReaderOutcome::Finished;
    match monitor.on_exit(None, b"bg-out".to_vec(), b"bg-err".to_vec(), &finished, &finished) {
        BackgroundExit::Capture { process_id, stdout, stderr, ending } => {
            assert_eq!(process_id, Some(7));
            assert_eq!(stdout, b"bg-out");
            assert_eq!(stderr, b"bg-err");
            let end = ending.on_captured(report("bg-out"));
            assert_eq!(end.target, HookTarget::Typed);
            assert_eq!(end.task_id, id);
            assert_eq!(
                end.output.workspace.as_deref(),
                Some("/home/anda-native-runtime-tests")
            );
            assert_eq!(end.output.stdout.as_deref(), Some("bg-out"));
            assert_eq!(end.output.exit_status.as_deref(), Some("exit status: 0"));
        }
        BackgroundExit::End(_) => panic!("nothing is captured"),
    }
}

#[test]
fn read_errors_stand_behind_the_error_output() {
    let (_, monitor) = started(false, false);
    let read = ReaderOutcome::ReadFailed("eio".to_string());
    let join = ReaderOutcome::JoinFailed("panicked".to_string());
    match monitor.on_exit(None, Vec::new(), b"warn".to_vec(), &read, &join) {
        BackgroundExit::Capture { stderr, .. } => assert_eq!(
            String::from_utf8(stderr).unwrap(),
            "warn\nFailed to read background stdout: eio\nFailed to join background stderr reader: panicked"
        ),
        BackgroundExit::End(_) => panic!("nothing is captured"),
    }
}

#[test]
fn a_failed_wait_ends_the_task() {
    let finished = ReaderOutcome::Finished;
    let (id, monitor) = started(false, false);
    let lost = Some("lost".to_string());
    match monitor.on_exit(lost, b"out".to_vec(), b"warn\xff".to_vec(), &finished, &finished) {
        BackgroundExit::End(end) => {
            assert_eq!(end.target, HookTarget::Nobody);
            assert_eq!(end.task_id, id);
            assert_eq!(end.output.process_id, Some(7));
            assert_eq!(end.output.stdout.as_deref(), Some("out"));
            assert_eq!(
                end.output.stderr.as_deref(),
                Some("Failed to execute background process: lost\nwarn\u{fffd}")
            );
        }
        BackgroundExit::Capture { .. } => panic!("no end"),
    }
    let (_, monitor) = started(false, false);
    let lost = Some("lost".to_string());
    match monitor.on_exit(lost, Vec::new(), Vec::new(), &finished, &finished) {
        BackgroundExit::End(end) => {
            assert_eq!(end.output.stdout, None);
            assert_eq!(
                end.output.stderr.as_deref(),
                Some("Failed to execute background process: lost")
            );
        }
        BackgroundExit::Capture { .. } => panic!("no end"),
    }
    let (_, monitor) = started(false, false);
    let read = ReaderOutcome::ReadFailed("eio".to_string());
    let lost = Some("lost".to_string());
    match monitor.on_exit(lost, "é".as_bytes().to_vec(), b"warn\n".to_vec(), &finished, &read) {
        BackgroundExit::End(end) => {
            assert_eq!(end.output.stdout.as_deref(), Some("é"));
            assert_eq!(
                end.output.stderr.as_deref(),
                Some("Failed to execute background process: lost\nwarn\nFailed to read background stderr: eio")
            );
        }
        BackgroundExit::Capture { .. } => panic!("no end"),
    }
}

#[test]
fn outputs_are_reported_where_there_are_any() {
    let output = output_chunks_to_exec_output(Some(1), "/w", "a".to_string(), String::new());
    assert_eq!(output.workspace.as_deref(), Some("/w"));
    assert_eq!(output.process_id, Some(1));
    assert_eq!(output.stdout.as_deref(), Some("a"));
    assert_eq!(output.stderr, None);
    assert_eq!(output.exit_status, None);
    assert_eq!(output.raw_output_path, None);
    let output = output_bytes_to_exec_output(None, "/w", &Vec::new(), &vec![0x62, 0xff]);
    assert_eq!(output.stdout, None);
    assert_eq!(output.stderr.as_deref(), Some("b\u{fffd}"));
}

#[test]
fn read_errors_start_a_line() {
    let mut empty = Vec::new();
    append_output_read_error(&mut empty, "e");
    assert_eq!(empty, b"e");
    let mut open = b"warn".to_vec();
    append_output_read_error(&mut open, "e");
    assert_eq!(open, b"warn\ne");
    let mut closed = b"warn\n".to_vec();
    append_output_read_error(&mut closed, "e");
    assert_eq!(closed, b"warn\ne");
}

#[test]
fn reader_outcomes_are_described() {
    assert_eq!(output_reader_error(&ReaderOutcome::Finished, "stdout"), None);
    assert_eq!(
        output_reader_error(&ReaderOutcome::ReadFailed("eio".to_string()), "stdout").as_deref(),
        Some("Failed to read background stdout: eio")
    );
    assert_eq!(
        output_reader_error(&ReaderOutcome::JoinFailed("gone".to_string()), "stderr").as_deref(),
        Some("Failed to join background stderr reader: gone")
    );
}

#[test]
fn chunks_are_taken_up_until_the_end() {
    assert_eq!(OUTPUT_READ_CHUNK_BYTES, 8192);
    assert_eq!(BACKGROUND_PROGRESS_INTERVAL_SECS, 3);
    let mut output = b"a".to_vec();
    assert!(accept_output_chunk(&mut output, b"bcd", 2));
    assert_eq!(output, b"abc");
    assert!(!accept_output_chunk(&mut output, b"bcd", 0));
    assert_eq!(output, b"abc");
}
