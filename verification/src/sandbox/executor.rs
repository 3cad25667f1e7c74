//! Command execution settings: sandbox mode selection, command
//! descriptions, and shell quoting for commands run inside a container.
use vstd::prelude::*;
use vstd::string::StringExecFns;
use crate::sandbox::error::{workspace_error_message, WorkspaceError};
use crate::sandbox::workspace::{join_path, path_join, resolve_relative, resolve_spec, strip_path_prefix, strip_prefix_spec};
use crate::text::{
    chars_of, eq_chars, join, join_strings, lemma_views_push, lowercase_of, push_str, replace_all,
    replace_all_exec, string_of, to_lowercase, views,
};
use crate::tools::error::ToolError;

verus! {

/// Sandbox execution mode.
#[derive(Clone, Copy, Debug, PartialEq, Eq)]
pub enum SandboxMode {
    Capability,
    Host,
    Docker,
}

/// The mode an already lowercased configuration string names: `docker`,
/// `host`, or capability mode for anything else.
pub open spec fn sandbox_mode_named(lower: Seq<char>) -> SandboxMode {
    if lower == "docker"@ {
        SandboxMode::Docker
    } else if lower == "host"@ {
        SandboxMode::Host
    } else {
        SandboxMode::Capability
    }
}

/// The mode a configuration string selects: `docker` and `host` compared
/// after Unicode lowercasing, anything else is capability mode.
pub open spec fn sandbox_mode_of(s: Seq<char>) -> SandboxMode {
    sandbox_mode_named(lowercase_of(s))
}

impl SandboxMode {
    /// Convert from the config-level string representation.
    pub fn from_config_str(s: &str) -> (r: Self)
        ensures
            r == sandbox_mode_of(s@),
    {
        let lower = to_lowercase(s);
        Self::from_lowercase_name(lower.as_str())
    }

    /// The mode an already lowercased configuration string names.
    pub fn from_lowercase_name(lower: &str) -> (r: Self)
        ensures
            r == sandbox_mode_named(lower@),
    {
        let l = chars_of(lower);
        let docker = chars_of("docker");
        let host = chars_of("host");
        if eq_chars(&l, &docker) {
            SandboxMode::Docker
        } else if eq_chars(&l, &host) {
            SandboxMode::Host
        } else {
            SandboxMode::Capability
        }
    }
}

/// A command specification describing what to execute.
#[derive(Clone, Debug)]
pub struct CommandSpec {
    /// The binary to execute (resolved absolute path or bare name).
    pub program: String,
    /// Command-line arguments.
    pub args: Vec<String>,
    /// Working directory (workspace-relative).
    pub cwd: String,
    /// Environment variables.
    pub env: Vec<(String, String)>,
}

/// The default executor: direct, capability-bounded process spawning.
#[derive(Clone, Copy, Debug, Default)]
pub struct CapabilityExecutor;

/// A value quoted for `sh`: wrapped in single quotes, each `'` written as `'\''`.
pub open spec fn shell_quote_spec(value: Seq<char>) -> Seq<char> {
    seq!['\''] + replace_all(value, seq!['\''], "'\\''"@) + seq!['\'']
}

/// Quote a value for `sh`.
pub fn shell_quote(value: &str) -> (r: String)
    ensures
        r@ == shell_quote_spec(value@),
{
    let v = chars_of(value);
    let mut q: Vec<char> = Vec::new();
    q.push('\'');
    assert(q@ =~= seq!['\'']);
    let esc = chars_of("'\\''");
    let body = replace_all_exec(&v, &q, &esc);
    let mut out = String::new();
    crate::text::push_char(&mut out, '\'');
    let b = string_of(&body);
    push_str(&mut out, b.as_str());
    crate::text::push_char(&mut out, '\'');
    assert(out@ =~= shell_quote_spec(value@));
    out
}

/// The quoted words of a command: program first, then each argument.
pub open spec fn quoted_words(program: Seq<char>, args: Seq<String>) -> Seq<Seq<char>> {
    seq![shell_quote_spec(program)] + args.map_values(|a: String| shell_quote_spec(a@))
}

/// `cd '<cwd>' && '<program>' '<arg>'...`: one `cd`, then the quoted
/// command, with no shell operator between arguments.
pub open spec fn shell_command_spec(container_cwd: Seq<char>, program: Seq<char>, args: Seq<String>) -> Seq<char> {
    "cd "@ + shell_quote_spec(container_cwd) + " && "@ + join(quoted_words(program, args), seq![' '])
}

/// The `sh -c` command run inside the container.
pub fn shell_command(container_cwd: &str, program: &str, args: &[String]) -> (r: String)
    ensures
        r@ == shell_command_spec(container_cwd@, program@, args@),
{
    let mut parts: Vec<String> = Vec::new();
    parts.push(shell_quote(program));
    let mut i: usize = 0;
    while i < args.len()
        invariant
            i <= args@.len(),
            views(parts@) == quoted_words(program@, args@.subrange(0, i as int)),
        decreases args@.len() - i,
    {
        let ghost before = views(parts@);
        parts.push(shell_quote(args[i].as_str()));
        assert(args@.subrange(0, i + 1).map_values(|a: String| shell_quote_spec(a@))
            =~= args@.subrange(0, i as int).map_values(|a: String| shell_quote_spec(a@)).push(shell_quote_spec(args@[i as int]@)));
        assert(views(parts@) =~= before.push(shell_quote_spec(args@[i as int]@)));
        assert(views(parts@) =~= quoted_words(program@, args@.subrange(0, i + 1)));
        i = i + 1;
    }
    assert(args@.subrange(0, args@.len() as int) =~= args@);
    let mut out = String::new();
    push_str(&mut out, "cd ");
    push_str(&mut out, shell_quote(container_cwd).as_str());
    push_str(&mut out, " && ");
    let joined = join_strings(&parts, " ");
    proof { reveal_strlit(" "); assert(" "@ =~= seq![' ']); }
    push_str(&mut out, joined.as_str());
    assert(out@ =~= shell_command_spec(container_cwd@, program@, args@));
    out
}

/// Routes commands into a running container whose mount point holds the
/// workspace.
#[derive(Clone, Debug)]
pub struct DockerExecutor {
    container: String,
    workspace_mount: String,
}

/// The arguments of the `docker` process for a command: the `exec`
/// subcommand, each environment variable as `-e KEY=value`, the working
/// directory, the container, and the command for `sh -c`.
pub open spec fn docker_exec_args(
    container: Seq<char>,
    container_cwd: Seq<char>,
    spec_program: Seq<char>,
    spec_args: Seq<String>,
    env: Seq<(String, String)>,
) -> Seq<Seq<char>> {
    seq!["exec"@] + env_flags(env) + seq!["--workdir"@, container_cwd, container, "sh"@, "-c"@,
        shell_command_spec(container_cwd, spec_program, spec_args)]
}

/// `-e KEY=value` for each variable, in order.
pub open spec fn env_flags(env: Seq<(String, String)>) -> Seq<Seq<char>>
    decreases env.len(),
{
    if env.len() == 0 {
        Seq::empty()
    } else {
        env_flags(env.drop_last()) + seq!["-e"@, env.last().0@ + "="@ + env.last().1@]
    }
}

impl DockerExecutor {
    /// The container commands run in.
    pub closed spec fn container_spec(self) -> Seq<char> {
        self.container@
    }

    /// Where the workspace is mounted inside the container.
    pub closed spec fn mount_spec(self) -> Seq<char> {
        self.workspace_mount@
    }

    /// An executor for `container` with the workspace mounted at
    /// `workspace_mount`; both must be non-empty. Whether the container is
    /// running is checked by the caller.
    pub fn with_checks(container: &str, workspace_mount: &str) -> (r: Result<Self, ToolError>)
        ensures
            container@.len() == 0 ==> (r matches Err(ToolError::Denied(m)) && m@ == "Docker container name must not be empty"@),
            container@.len() > 0 && workspace_mount@.len() == 0 ==> (r matches Err(ToolError::Denied(m))
                && m@ == "Docker workspace mount must not be empty"@),
            container@.len() > 0 && workspace_mount@.len() > 0 ==> (r matches Ok(e)
                && e.container_spec() == container@ && e.mount_spec() == workspace_mount@),
    {
        if container.is_empty() {
            return Err(ToolError::Denied(String::from_str("Docker container name must not be empty")));
        }
        if workspace_mount.is_empty() {
            return Err(ToolError::Denied(String::from_str("Docker workspace mount must not be empty")));
        }
        Ok(DockerExecutor { container: String::from_str(container), workspace_mount: String::from_str(workspace_mount) })
    }

    /// Translate a workspace-relative path to its container-side path.
    pub fn translate_to_container(&self, relative: &str) -> (r: String)
        ensures
            r@ == path_join(self.mount_spec(), relative@),
    {
        join_path(self.workspace_mount.as_str(), relative)
    }

    /// Translate a container-side path back to a workspace-relative path.
    pub fn translate_to_host(&self, container_path: &str) -> (r: Option<String>)
        ensures
            match strip_prefix_spec(container_path@, self.mount_spec()) {
                Some(p) => r matches Some(x) && x@ == p,
                None => r is None,
            },
    {
        strip_path_prefix(container_path, self.workspace_mount.as_str())
    }

    /// The `docker exec` arguments for `spec`: its working directory is
    /// resolved in the workspace (a path that escapes it is denied with the
    /// workspace error's message) and translated into the container.
    pub fn exec_args(&self, spec: &CommandSpec) -> (r: Result<Vec<String>, ToolError>)
        ensures
            match resolve_spec(spec.cwd@) {
                Ok(q) => r matches Ok(v) && views(v@) == docker_exec_args(self.container_spec(),
                    path_join(self.mount_spec(), q), spec.program@, spec.args@, spec.env@),
                Err(_) => r matches Err(ToolError::Denied(m))
                    && m@ == workspace_error_message(WorkspaceError::PathEscapesWorkspace(spec.cwd)),
            },
    {
        let resolved = match resolve_relative(spec.cwd.as_str()) {
            Ok(p) => p,
            Err(e) => {
                return Err(ToolError::Denied(e.to_string()));
            },
        };
        let container_cwd = self.translate_to_container(resolved.as_str());
        let mut args: Vec<String> = Vec::new();
        let exec = String::from_str("exec");
        proof { lemma_views_push(args@, exec); }
        args.push(exec);
        let mut i: usize = 0;
        while i < spec.env.len()
            invariant
                i <= spec.env@.len(),
                views(args@) == seq!["exec"@] + env_flags(spec.env@.subrange(0, i as int)),
            decreases spec.env@.len() - i,
        {
            let ghost before = views(args@);
            let flag = String::from_str("-e");
            proof { lemma_views_push(args@, flag); }
            args.push(flag);
            let mut kv = spec.env[i].0.clone();
            push_str(&mut kv, "=");
            push_str(&mut kv, spec.env[i].1.as_str());
            proof { lemma_views_push(args@, kv); }
            args.push(kv);
            assert(spec.env@.subrange(0, i + 1).drop_last() =~= spec.env@.subrange(0, i as int));
            assert(views(args@) =~= seq!["exec"@] + env_flags(spec.env@.subrange(0, i + 1)));
            i = i + 1;
        }
        assert(spec.env@.subrange(0, spec.env@.len() as int) =~= spec.env@);
        let ghost flags = views(args@);
        let w = String::from_str("--workdir");
        proof { lemma_views_push(args@, w); }
        args.push(w);
        let cwd_copy = container_cwd.clone();
        proof { lemma_views_push(args@, cwd_copy); }
        args.push(cwd_copy);
        let c = self.container.clone();
        proof { lemma_views_push(args@, c); }
        args.push(c);
        let sh = String::from_str("sh");
        proof { lemma_views_push(args@, sh); }
        args.push(sh);
        let dash_c = String::from_str("-c");
        proof { lemma_views_push(args@, dash_c); }
        args.push(dash_c);
        let cmd = shell_command(container_cwd.as_str(), spec.program.as_str(), spec.args.as_slice());
        proof { lemma_views_push(args@, cmd); }
        args.push(cmd);
        assert(views(args@) =~= docker_exec_args(self.container_spec(), container_cwd@, spec.program@, spec.args@, spec.env@));
        Ok(args)
    }
}

/// The environment of the `docker` process: the command's variables, and
/// the host's `PATH` when the command sets none.
pub fn docker_env(env: &Vec<(String, String)>, host_path: Option<String>) -> (r: Vec<(String, String)>)
    ensures
        r@.len() >= env@.len(),
        r@.subrange(0, env@.len() as int) == env@,
        match host_path {
            Some(p) => if (exists|i: int| 0 <= i < env@.len() && env@[i].0@ == "PATH"@) {
                r@.len() == env@.len()
            } else {
                r@.len() == env@.len() + 1 && r@.last().0@ == "PATH"@ && r@.last().1 == p
            },
            None => r@.len() == env@.len(),
        },
{
    let mut out: Vec<(String, String)> = Vec::new();
    let mut has_path = false;
    let key = String::from_str("PATH");
    let mut i: usize = 0;
    while i < env.len()
        invariant
            i <= env@.len(),
            key@ == "PATH"@,
            out@ == env@.subrange(0, i as int),
            has_path == exists|j: int| 0 <= j < i && env@[j].0@ == "PATH"@,
        decreases env@.len() - i,
    {
        if env[i].0 == key {
            has_path = true;
        }
        let k = env[i].0.clone();
        let v = env[i].1.clone();
        out.push((k, v));
        assert(out@ =~= env@.subrange(0, i + 1));
        i = i + 1;
    }
    assert(env@.subrange(0, env@.len() as int) =~= env@);
    if !has_path {
        if let Some(p) = host_path {
            out.push((key, p));
            assert(out@.subrange(0, env@.len() as int) =~= env@);
        }
    }
    out
}

} // verus!

verus! {

impl DockerExecutor {
    /// An executor with no checks at all.
    pub fn new_unchecked(container: &str, workspace_mount: &str) -> (r: Self)
        ensures
            r.container_spec() == container@,
            r.mount_spec() == workspace_mount@,
    {
        DockerExecutor { container: String::from_str(container), workspace_mount: String::from_str(workspace_mount) }
    }

    /// The container's name.
    pub fn container(&self) -> (r: &str)
        ensures
            r@ == self.container_spec(),
    {
        self.container.as_str()
    }
}

/// What `docker inspect` of the container's running state gave.
#[derive(Debug, Clone, PartialEq, Eq)]
pub enum InspectOutcome {
    /// It ran and succeeded, printing this.
    Succeeded(String),
    /// It ran and failed (no such container).
    Failed,
    /// It could not be run, with this error.
    NotRun(String),
}

/// The refusal an inspection gives, if any: a container that does not
/// report running, one that does not exist, or a failed check.
pub open spec fn inspect_refusal(container: Seq<char>, outcome: InspectOutcome) -> Option<Seq<char>> {
    match outcome {
        InspectOutcome::Succeeded(out) => if crate::text::contains(crate::text::trim(out@), "true"@) {
            None
        } else {
            Some("Docker container '"@ + container + "' is not running"@)
        },
        InspectOutcome::Failed => Some("Docker container '"@ + container + "' not found"@),
        InspectOutcome::NotRun(e) => Some("Failed to validate Docker container '"@ + container + "': "@ + e@),
    }
}

/// Whether the container may be used, after `docker inspect` (see
/// `inspect_refusal`).
pub fn check_inspection(container: &str, outcome: &InspectOutcome) -> (r: Result<(), ToolError>)
    ensures
        match inspect_refusal(container@, *outcome) {
            Some(m) => r matches Err(ToolError::Denied(x)) && x@ == m,
            None => r is Ok,
        },
{
    match outcome {
        InspectOutcome::Succeeded(out) => {
            let t = crate::text::trim_vec(&chars_of(out.as_str()));
            let p = chars_of("true");
            if crate::text::find_exec(&t, &p, 0).is_some() {
                Ok(())
            } else {
                let mut m = String::from_str("Docker container '");
                push_str(&mut m, container);
                push_str(&mut m, "' is not running");
                Err(ToolError::Denied(m))
            }
        },
        InspectOutcome::Failed => {
            let mut m = String::from_str("Docker container '");
            push_str(&mut m, container);
            push_str(&mut m, "' not found");
            Err(ToolError::Denied(m))
        },
        InspectOutcome::NotRun(e) => {
            let mut m = String::from_str("Failed to validate Docker container '");
            push_str(&mut m, container);
            push_str(&mut m, "': ");
            push_str(&mut m, e.as_str());
            Err(ToolError::Denied(m))
        },
    }
}

/// The executor commands run through.
#[derive(Clone, Debug)]
pub enum SandboxExecutor {
    /// Direct capability-bounded execution (default).
    Capability(CapabilityExecutor),
    /// Containerized execution via Docker.
    Docker(DockerExecutor),
}

impl SandboxExecutor {
    /// Direct execution.
    pub fn capability() -> (r: Self)
        ensures
            r is Capability,
    {
        SandboxExecutor::Capability(CapabilityExecutor)
    }

    /// Execution in `container`, with the checks of
    /// `DockerExecutor::with_checks`; the frontend then inspects the
    /// container (`check_inspection`).
    pub fn docker(container: &str, workspace_mount: &str) -> (r: Result<Self, ToolError>)
        ensures
            container@.len() == 0 ==> (r matches Err(ToolError::Denied(m)) && m@ == "Docker container name must not be empty"@),
            container@.len() > 0 && workspace_mount@.len() == 0 ==> (r matches Err(ToolError::Denied(m))
                && m@ == "Docker workspace mount must not be empty"@),
            container@.len() > 0 && workspace_mount@.len() > 0 ==> (r matches Ok(SandboxExecutor::Docker(e))
                && e.container_spec() == container@ && e.mount_spec() == workspace_mount@),
    {
        match DockerExecutor::with_checks(container, workspace_mount) {
            Ok(e) => Ok(SandboxExecutor::Docker(e)),
            Err(e) => Err(e),
        }
    }

    /// Build from config values: capability and host modes run directly;
    /// docker mode needs a container name (the mount defaults to
    /// `/workspace`).
    pub fn from_config(mode: SandboxMode, container: Option<&str>, workspace_mount: Option<&str>) -> (r: Result<Self, ToolError>)
        ensures
            mode != SandboxMode::Docker ==> r matches Ok(SandboxExecutor::Capability(_)),
            mode == SandboxMode::Docker && container is None ==> (r matches Err(ToolError::Denied(m))
                && m@ == "sandbox.mode is 'docker' but no container name configured"@),
            mode == SandboxMode::Docker && container is Some ==> ({
                let c = container->0@;
                let mount = match workspace_mount { Some(m) => m@, None => "/workspace"@ };
                &&& c.len() == 0 ==> (r matches Err(ToolError::Denied(m)) && m@ == "Docker container name must not be empty"@)
                &&& c.len() > 0 && mount.len() == 0 ==> (r matches Err(ToolError::Denied(m))
                    && m@ == "Docker workspace mount must not be empty"@)
                &&& c.len() > 0 && mount.len() > 0 ==> (r matches Ok(SandboxExecutor::Docker(e))
                    && e.container_spec() == c && e.mount_spec() == mount)
            }),
    {
        match mode {
            SandboxMode::Capability | SandboxMode::Host => Ok(Self::capability()),
            SandboxMode::Docker => {
                let c = match container {
                    Some(c) => c,
                    None => {
                        return Err(ToolError::Denied(String::from_str("sandbox.mode is 'docker' but no container name configured")));
                    },
                };
                let mount = match workspace_mount {
                    Some(m) => m,
                    None => {
                        proof { reveal_strlit("/workspace"); }
                        "/workspace"
                    },
                };
                Self::docker(c, mount)
            },
        }
    }
}

} // verus!
verus! {

/// The first variable of `env` whose name is one of `protected`.
pub open spec fn first_protected(env: Seq<(String, String)>, protected: Seq<Seq<char>>) -> Option<int>
    decreases env.len(),
{
    if env.len() == 0 {
        None
    } else {
        match first_protected(env.drop_last(), protected) {
            Some(i) => Some(i),
            None => if protected.contains(env.last().0@) { Some(env.len() - 1) } else { None },
        }
    }
}

/// The message of a protected variable a command tried to set.
pub open spec fn protected_env_text(name: Seq<char>) -> Seq<char> {
    "protected environment variable cannot be set: "@ + name
}

fn is_listed(name: &String, list: &[String]) -> (r: bool)
    ensures
        r == views(list@).contains(name@),
{
    let mut i: usize = 0;
    while i < list.len()
        invariant
            i <= list@.len(),
            forall|j: int| 0 <= j < i ==> list@[j]@ != name@,
        decreases list@.len() - i,
    {
        if list[i] == *name {
            assert(views(list@)[i as int] == name@);
            return true;
        }
        i = i + 1;
    }
    assert(!views(list@).contains(name@)) by {
        if views(list@).contains(name@) {
            let j = choose|j: int| 0 <= j < views(list@).len() && views(list@)[j] == name@;
            assert(list@[j]@ == name@);
        }
    }
    false
}

/// Refuse a command that sets a protected variable (the names are the
/// deployment's list): the first such variable is named in the denial.
pub fn reject_protected_env(env: &Vec<(String, String)>, protected: &[String]) -> (r: Result<(), ToolError>)
    ensures
        match first_protected(env@, views(protected@)) {
            Some(i) => r matches Err(ToolError::Denied(m)) && m@ == protected_env_text(env@[i].0@),
            None => r is Ok,
        },
{
    let mut i: usize = 0;
    while i < env.len()
        invariant
            i <= env@.len(),
            first_protected(env@.subrange(0, i as int), views(protected@)) is None,
        decreases env@.len() - i,
    {
        let ghost pre = env@.subrange(0, i + 1);
        assert(pre.drop_last() =~= env@.subrange(0, i as int));
        if is_listed(&env[i].0, protected) {
            proof { lemma_first_protected_prefix(env@, views(protected@), i + 1); }
            let mut m = String::from_str("protected environment variable cannot be set: ");
            push_str(&mut m, env[i].0.as_str());
            return Err(ToolError::Denied(m));
        }
        i = i + 1;
    }
    assert(env@.subrange(0, env@.len() as int) =~= env@);
    Ok(())
}

proof fn lemma_first_protected_prefix(env: Seq<(String, String)>, protected: Seq<Seq<char>>, k: int)
    requires
        0 <= k <= env.len(),
        first_protected(env.subrange(0, k), protected) is Some,
    ensures
        first_protected(env, protected) == first_protected(env.subrange(0, k), protected),
    decreases env.len() - k,
{
    if k < env.len() {
        assert(env.subrange(0, k + 1).drop_last() =~= env.subrange(0, k));
        lemma_first_protected_prefix(env, protected, k + 1);
    } else {
        assert(env.subrange(0, k) =~= env);
    }
}

} // verus!
verus! {

/// The `docker` process's arguments, spelled out: `exec`, then `-e` and
/// `KEY=value` for each variable in order, then `--workdir` and the
/// container directory, the container, and `sh -c` with the command.
pub proof fn lemma_docker_exec_argv(
    container: Seq<char>,
    cwd: Seq<char>,
    program: Seq<char>,
    args: Seq<String>,
    env: Seq<(String, String)>,
)
    ensures
        ({
            let argv = docker_exec_args(container, cwd, program, args, env);
            let n = env.len();
            &&& argv.len() == 1 + 2 * n + 6
            &&& argv[0] == "exec"@
            &&& forall|i: int| 0 <= i < n ==> argv[1 + 2 * i] == "-e"@
                && argv[2 + 2 * i] == (#[trigger] env[i]).0@ + "="@ + env[i].1@
            &&& argv.subrange((1 + 2 * n) as int, argv.len() as int)
                == seq!["--workdir"@, cwd, container, "sh"@, "-c"@, shell_command_spec(cwd, program, args)]
        }),
{
    lemma_env_flags(env);
    let argv = docker_exec_args(container, cwd, program, args, env);
    let n = env.len();
    let f = env_flags(env);
    let tail = seq!["--workdir"@, cwd, container, "sh"@, "-c"@, shell_command_spec(cwd, program, args)];
    assert(argv == seq!["exec"@] + f + tail);
    assert forall|i: int| 0 <= i < n implies argv[1 + 2 * i] == "-e"@
        && argv[2 + 2 * i] == (#[trigger] env[i]).0@ + "="@ + env[i].1@ by {
        assert(argv[1 + 2 * i] == f[2 * i]);
        assert(f[2 * i] == "-e"@);
        assert(argv[2 + 2 * i] == f[2 * i + 1]);
    }
    assert(argv.subrange((1 + 2 * n) as int, argv.len() as int)
        =~= seq!["--workdir"@, cwd, container, "sh"@, "-c"@, shell_command_spec(cwd, program, args)]);
}

proof fn lemma_env_flags(env: Seq<(String, String)>)
    ensures
        env_flags(env).len() == 2 * env.len(),
        forall|j: int| 0 <= j < env_flags(env).len() && j % 2 == 0 ==> #[trigger] env_flags(env)[j] == "-e"@,
        forall|i: int| 0 <= i < env.len() ==> env_flags(env)[2 * i + 1] == (#[trigger] env[i]).0@ + "="@ + env[i].1@,
    decreases env.len(),
{
    if env.len() > 0 {
        let pre = env.drop_last();
        lemma_env_flags(pre);
        let f = env_flags(pre);
        let tail = seq!["-e"@, env.last().0@ + "="@ + env.last().1@];
        assert(env_flags(env) == f + tail);
        assert forall|j: int| 0 <= j < env_flags(env).len() && j % 2 == 0 implies #[trigger] env_flags(env)[j] == "-e"@ by {
            if j < f.len() {
                assert((f + tail)[j] == f[j]);
            } else {
                assert(j == f.len());
                assert((f + tail)[j] == tail[0]);
            }
        }
        assert forall|i: int| 0 <= i < env.len() implies env_flags(env)[2 * i + 1] == (#[trigger] env[i]).0@ + "="@ + env[i].1@ by {
            if i < pre.len() {
                assert(pre[i] == env[i]);
                assert((f + tail)[2 * i + 1] == f[2 * i + 1]);
            } else {
                assert((f + tail)[2 * i + 1] == tail[1]);
            }
        }
    }
}

} // verus!
