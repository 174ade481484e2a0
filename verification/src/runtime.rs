//! The native shell runtime.
use crate::command::{
    ArgsModel, CommandRun, ExecArgs, Launch, LaunchModel, LaunchPlan, RunModel, RunPhase, Variable,
    VariableModel,
};
use crate::path::PosixPath;
use crate::request;
use crate::request::extra_text;
use crate::text::bytes_of;
use anda_core::RequestMeta;
use vstd::prelude::*;
use vstd::utf8::*;

verus! {

/// The key of the request's metadata that names another directory to run in.
pub const WORKSPACE_KEY: &'static str = "workspace";

/// How many seconds pass between two looks at the outputs of a background process.
pub const BACKGROUND_PROGRESS_INTERVAL_SECS: u64 = 3;

/// How many bytes of an output are read at once.
pub const OUTPUT_READ_CHUNK_BYTES: usize = 8192;

/// The kind of system that a command runs on.
#[derive(Debug, Clone, Copy, PartialEq, Eq, Structural)]
pub enum Platform {
    /// Commands are handed to `sh`.
    Unix,
    /// Commands are handed to `cmd.exe`.
    Windows,
}

impl Platform {
    /// The shell.
    pub open spec fn spec_shell(self) -> Seq<char> {
        match self {
            Platform::Unix => "sh"@,
            Platform::Windows => "cmd.exe"@,
        }
    }

    /// The argument that makes the shell take the next one as a command.
    pub open spec fn spec_flag(self) -> Seq<char> {
        match self {
            Platform::Unix => "-c"@,
            Platform::Windows => "/C"@,
        }
    }
}

/// A program with its arguments and with the variables that are changed for it, in order.
#[derive(Debug)]
pub struct ShellCommand<B, A, E> {
    pub program: B,
    pub args: A,
    pub envs: E,
}

/// A command that can be run.
pub type ShellPlan = ShellCommand<Vec<u8>, Vec<Vec<u8>>, Vec<Variable>>;

/// The model of a command.
pub type ShellModel = ShellCommand<Seq<u8>, Seq<Seq<u8>>, Seq<VariableModel>>;

impl<B: DeepView, A: DeepView, E: DeepView> DeepView for ShellCommand<B, A, E> {
    type V = ShellCommand<B::V, A::V, E::V>;

    open spec fn deep_view(&self) -> ShellCommand<B::V, A::V, E::V> {
        ShellCommand {
            program: self.program.deep_view(),
            args: self.args.deep_view(),
            envs: self.envs.deep_view(),
        }
    }
}

/// The changes that set the variables.
pub open spec fn settings(envs: Seq<(Seq<char>, Seq<char>)>) -> Seq<VariableModel> {
    envs.map_values(
        |env: (Seq<char>, Seq<char>)| (encode_utf8(env.0), Some(encode_utf8(env.1))),
    )
}

/// The arguments, or those of an empty command in the foreground where there are none.
pub open spec fn args_or_default(args: Option<ArgsModel>) -> ArgsModel {
    match args {
        Some(args) => args,
        None => ExecArgs::empty(),
    }
}

/// The model of a runtime.
#[verifier::ext_equal]
pub struct RuntimeModel {
    pub workspace: Seq<u8>,
    pub temp_dir: Seq<u8>,
    pub insecure: bool,
    pub platform: Platform,
}

/// The shell's program and arguments for a command. No variable is changed for it.
pub open spec fn shell_command(platform: Platform, command: Seq<char>) -> ShellModel {
    ShellCommand {
        program: encode_utf8(platform.spec_shell()),
        args: seq![encode_utf8(platform.spec_flag()), encode_utf8(command)],
        envs: Seq::empty(),
    }
}

impl RuntimeModel {
    /// The directory that a command runs in: the one that the request names, or else the
    /// runtime's own.
    pub open spec fn command_workspace(self, named: Option<Seq<char>>) -> Seq<u8> {
        match named {
            Some(text) => encode_utf8(text),
            None => self.workspace,
        }
    }

    /// What a command's process is spawned with. A runtime that is not insecure hides its
    /// own variables and those of the command from the process; an insecure one shows
    /// both, and those that are given come last.
    pub open spec fn launch(
        self,
        named: Option<Seq<char>>,
        command: ShellModel,
        envs: Seq<(Seq<char>, Seq<char>)>,
    ) -> LaunchModel {
        Launch {
            program: command.program,
            args: command.args,
            envs: if self.insecure {
                command.envs + settings(envs)
            } else {
                settings(envs)
            },
            workspace: self.command_workspace(named),
            clear_env: !self.insecure,
        }
    }

    /// The run of a command.
    pub open spec fn run(
        self,
        named: Option<Seq<char>>,
        tool_name: Seq<char>,
        command: ShellModel,
        envs: Seq<(Seq<char>, Seq<char>)>,
        args: ArgsModel,
    ) -> RunModel {
        CommandRun {
            tool_name,
            launch: self.launch(named, command, envs),
            args,
            phase: RunPhase::Spawning,
        }
    }
}

fn append_settings(changes: &mut Vec<Variable>, envs: &Vec<(String, String)>)
    ensures
        final(changes).deep_view() == old(changes).deep_view() + settings(envs.deep_view()),
{
    let ghost start = changes.deep_view();
    let ghost all = settings(envs.deep_view());
    let mut i: usize = 0;
    assert(start + all.take(0) == start);
    while i < envs.len()
        invariant
            i <= envs.len(),
            all == settings(envs.deep_view()),
            changes.deep_view() == start + all.take(i as int),
        decreases envs.len() - i,
    {
        let ghost before = changes.deep_view();
        let name = bytes_of(envs[i].0.as_str());
        let value = bytes_of(envs[i].1.as_str());
        assert(name.deep_view() == name@);
        assert(value.deep_view() == value@);
        changes.push((name, Some(value)));
        assert(changes.deep_view() == before.push(all[i as int]));
        assert(start + all.take(i + 1) == before.push(all[i as int]));
        i += 1;
    }
    assert(all.take(i as int) == all);
}

/// A runtime with full access to the system, which hands commands to its shell.
pub struct NativeRuntime {
    workspace: PosixPath,
    temp_dir: PosixPath,
    insecure: bool,
    platform: Platform,
}

impl View for NativeRuntime {
    type V = RuntimeModel;

    closed spec fn view(&self) -> RuntimeModel {
        RuntimeModel {
            workspace: self.workspace@,
            temp_dir: self.temp_dir@,
            insecure: self.insecure,
            platform: self.platform,
        }
    }
}

impl NativeRuntime {
    /// The shell's program and arguments for a command.
    pub fn build_shell_command(platform: Platform, command: &str) -> (result: ShellPlan)
        ensures
            result.deep_view() == shell_command(platform, command@),
    {
        let (program, flag) = match platform {
            Platform::Unix => ("sh", "-c"),
            Platform::Windows => ("cmd.exe", "/C"),
        };
        let program = bytes_of(program);
        let flag = bytes_of(flag);
        let command = bytes_of(command);
        assert(program.deep_view() == program@);
        assert(flag.deep_view() == flag@);
        assert(command.deep_view() == command@);
        let mut args: Vec<Vec<u8>> = Vec::new();
        args.push(flag);
        args.push(command);
        assert(args.deep_view() == seq![flag@, command@]);
        let envs: Vec<Variable> = Vec::new();
        assert(envs.deep_view() == Seq::<VariableModel>::empty());
        ShellCommand { program, args, envs }
    }

    /// A runtime in the directory, on a system with the given directory for temporary
    /// files, that hides its own variables from its processes.
    pub fn new(workspace: PosixPath, temp_dir: PosixPath, platform: Platform) -> (runtime: Self)
        ensures
            runtime@ == (RuntimeModel {
                workspace: workspace@,
                temp_dir: temp_dir@,
                insecure: false,
                platform,
            }),
    {
        NativeRuntime { workspace, temp_dir, insecure: false, platform }
    }

    /// The runtime with another directory for temporary files.
    pub fn temp_dir(self, temp_dir: PosixPath) -> (runtime: Self)
        ensures
            runtime@ == (RuntimeModel { temp_dir: temp_dir@, ..self@ }),
    {
        NativeRuntime {
            workspace: self.workspace,
            temp_dir,
            insecure: self.insecure,
            platform: self.platform,
        }
    }

    /// The runtime that shows its own variables to its processes.
    pub fn insecure(self) -> (runtime: Self)
        ensures
            runtime@ == (RuntimeModel { insecure: true, ..self@ }),
    {
        NativeRuntime {
            workspace: self.workspace,
            temp_dir: self.temp_dir,
            insecure: true,
            platform: self.platform,
        }
    }

    /// The runtime's name as a tool.
    pub fn name(&self) -> (name: &str)
        ensures
            name@ == "shell"@,
    {
        "shell"
    }

    /// The directory that commands run in.
    pub fn workspace(&self) -> (workspace: &PosixPath)
        ensures
            workspace@ == self@.workspace,
    {
        &self.workspace
    }

    /// The directory that whole outputs are kept in.
    pub fn output_dir(&self) -> (temp_dir: &PosixPath)
        ensures
            temp_dir@ == self@.temp_dir,
    {
        &self.temp_dir
    }

    /// The shell that commands are handed to.
    pub fn shell(&self) -> (shell: &str)
        ensures
            shell@ == self@.platform.spec_shell(),
    {
        match self.platform {
            Platform::Unix => "sh",
            Platform::Windows => "cmd.exe",
        }
    }

    /// The run of a command, for a request that names the given directory or none.
    pub fn execute_command_in(
        &self,
        named: Option<String>,
        tool_name: &str,
        command: ShellPlan,
        envs: Vec<(String, String)>,
        args: Option<ExecArgs<String>>,
    ) -> (run: CommandRun<LaunchPlan, String>)
        ensures
            run.deep_view() == self@.run(
                named.deep_view(),
                tool_name@,
                command.deep_view(),
                envs.deep_view(),
                args_or_default(args.deep_view()),
            ),
    {
        let args = match args {
            Some(args) => args,
            None => ExecArgs::default(),
        };
        let workspace = match named {
            Some(text) => PosixPath::from_text(text.as_str()),
            None => self.workspace.clone(),
        };
        let mut changes = if self.insecure {
            command.envs
        } else {
            Vec::<Variable>::new()
        };
        let ghost before = changes.deep_view();
        append_settings(&mut changes, &envs);
        assert(!self.insecure ==> before + settings(envs.deep_view()) == settings(
            envs.deep_view(),
        ));
        CommandRun {
            tool_name: tool_name.to_string(),
            launch: Launch {
                program: command.program,
                args: command.args,
                envs: changes,
                workspace,
                clear_env: !self.insecure,
            },
            args,
            phase: RunPhase::Spawning,
        }
    }

    /// The run of a command for a request.
    pub fn execute_command(
        &self,
        meta: &RequestMeta,
        tool_name: &str,
        command: ShellPlan,
        envs: Vec<(String, String)>,
        args: Option<ExecArgs<String>>,
    ) -> (run: CommandRun<LaunchPlan, String>)
        ensures
            run.deep_view() == self@.run(
                request::lookup(request::extra_texts(*meta), "workspace"@),
                tool_name@,
                command.deep_view(),
                envs.deep_view(),
                args_or_default(args.deep_view()),
            ),
    {
        let named = extra_text(meta, WORKSPACE_KEY);
        self.execute_command_in(named, tool_name, command, envs, args)
    }

    /// The run of the shell on a command for a request.
    pub fn execute(
        &self,
        meta: &RequestMeta,
        input: ExecArgs<String>,
        envs: Vec<(String, String)>,
    ) -> (run: CommandRun<LaunchPlan, String>)
        ensures
            run.deep_view() == self@.run(
                request::lookup(request::extra_texts(*meta), "workspace"@),
                "shell"@,
                shell_command(self@.platform, input.command@),
                envs.deep_view(),
                input.deep_view(),
            ),
    {
        let command = Self::build_shell_command(self.platform, input.command.as_str());
        self.execute_command(meta, self.name(), command, envs, Some(input))
    }
}

} // verus!
