//! The shell tool: shell built-ins (`cd`, `export`, `unset`, `pwd`) act on
//! per-session state kept here; any other command becomes a command
//! specification for the executor, with the binary checked against the
//! allowlist.
use vstd::prelude::*;
use vstd::string::StringExecFns;
use crate::sandbox::binary_registry::BinaryRegistry;
use crate::sandbox::error::{binary_error_message, shell_session_error_message};
use crate::sandbox::executor::CommandSpec;
use crate::sandbox::shell_session::{classified, SessionCommand, ShellSession};
use crate::sandbox::workspace::{lemma_resolved_path_is_confined, resolve_relative, resolve_spec, Workspace};
use crate::text::{clone_strings, push_str};
use crate::tools::error::ToolError;
use crate::tools::tool::Tool;
use crate::tools::reply::{one_entry, string_entry, ToolReply};
use crate::tools::schema::json_view;

verus! {

/// Arguments of a shell call.
#[derive(Debug, Clone)]
pub struct BashArgs {
    pub command: Vec<String>,
    /// The session whose state the call uses, if any.
    pub session: Option<String>,
}

/// What a shell call comes to: a reply, or a command to run.
pub enum BashStep {
    Reply(Result<String, ToolError>),
    Run(CommandSpec),
}

/// The session registered under `sid`, if any.
pub open spec fn find_session(es: Seq<(String, ShellSession)>, sid: Seq<char>) -> Option<ShellSession>
    decreases es.len(),
{
    if es.len() == 0 {
        None
    } else if es.last().0@ == sid {
        Some(es.last().1)
    } else {
        find_session(es.drop_last(), sid)
    }
}

/// No session id occurs twice.
pub open spec fn ids_distinct(es: Seq<(String, ShellSession)>) -> bool {
    forall|a: int, b: int| 0 <= a < b < es.len() ==> #[trigger] es[a].0@ != #[trigger] es[b].0@
}

proof fn lemma_find_session_at(es: Seq<(String, ShellSession)>, i: int)
    requires
        ids_distinct(es),
        0 <= i < es.len(),
    ensures
        find_session(es, es[i].0@) == Some(es[i].1),
    decreases es.len(),
{
    if i < es.len() - 1 {
        assert(es.last().0@ != es[i].0@);
        assert(es.drop_last()[i] == es[i]);
        lemma_find_session_at(es.drop_last(), i);
    }
}

proof fn lemma_find_session_absent(es: Seq<(String, ShellSession)>, sid: Seq<char>)
    requires
        forall|j: int| 0 <= j < es.len() ==> es[j].0@ != sid,
    ensures
        find_session(es, sid) is None,
    decreases es.len(),
{
    if es.len() > 0 {
        assert(es.last().0@ != sid) by { assert(es[es.len() - 1] == es.last()); }
        lemma_find_session_absent(es.drop_last(), sid);
    }
}

proof fn lemma_find_session_update(es: Seq<(String, ShellSession)>, i: int, s: ShellSession, k: Seq<char>)
    requires
        0 <= i < es.len(),
        k != es[i].0@,
    ensures
        find_session(es.update(i, (es[i].0, s)), k) == find_session(es, k),
    decreases es.len(),
{
    let u = es.update(i, (es[i].0, s));
    if i < es.len() - 1 {
        assert(u.drop_last() =~= es.drop_last().update(i, (es[i].0, s)));
        assert(es.drop_last()[i] == es[i]);
        lemma_find_session_update(es.drop_last(), i, s, k);
    } else {
        assert(u.drop_last() =~= es.drop_last());
    }
}

proof fn lemma_find_session_push(es: Seq<(String, ShellSession)>, e: (String, ShellSession), k: Seq<char>)
    requires
        k != e.0@,
    ensures
        find_session(es.push(e), k) == find_session(es, k),
{
    assert(es.push(e).drop_last() =~= es);
}

/// The shell tool: its sessions, the binary allowlist and the workspace.
pub struct BashTool {
    sessions: Vec<(String, ShellSession)>,
    registry: BinaryRegistry,
    workspace: Workspace,
}

/// The reply to an `export`.
pub open spec fn exported_text(k: Seq<char>, v: Seq<char>) -> Seq<char> {
    "exported "@ + k + "="@ + v
}

impl BashTool {
    /// The session registered under `sid`, if any.
    pub closed spec fn session(self, sid: Seq<char>) -> Option<ShellSession> {
        find_session(self.sessions@, sid)
    }

    /// The binary allowlist.
    pub closed spec fn registry_spec(self) -> BinaryRegistry {
        self.registry
    }

    /// The sessions are well kept: each id once.
    pub closed spec fn wf(self) -> bool {
        ids_distinct(self.sessions@)
    }

    /// A shell tool with no sessions yet.
    pub fn with_sandbox(registry: BinaryRegistry, workspace: Workspace) -> (r: Self)
        ensures
            r.wf(),
            forall|sid: Seq<char>| r.session(sid) is None,
            r.registry_spec() == registry,
    {
        let r = BashTool { sessions: Vec::new(), registry, workspace };
        assert forall|sid: Seq<char>| r.session(sid) is None by {}
        r
    }

    /// The index of the session `sid`, created (at the workspace root, with
    /// an empty environment) when it does not exist yet.
    fn session_slot(&mut self, sid: &String) -> (i: usize)
        requires
            old(self).wf(),
        ensures
            final(self).wf(),
            i < final(self).sessions@.len(),
            final(self).sessions@[i as int].0@ == sid@,
            final(self).registry == old(self).registry,
            old(self).session(sid@) matches Some(s) ==> final(self).sessions@[i as int].1 == s,
            old(self).session(sid@) is None ==> final(self).sessions@[i as int].1.cwd_spec() == "."@
                && final(self).sessions@[i as int].1.env_spec() == Map::<Seq<char>, Seq<char>>::empty(),
            forall|k: Seq<char>| k != sid@ ==> #[trigger] final(self).session(k) == old(self).session(k),
    {
        let mut i: usize = 0;
        while i < self.sessions.len()
            invariant
                i <= self.sessions@.len(),
                ids_distinct(self.sessions@),
                forall|j: int| 0 <= j < i ==> self.sessions@[j].0@ != sid@,
            decreases self.sessions@.len() - i,
        {
            if self.sessions[i].0 == *sid {
                proof { lemma_find_session_at(self.sessions@, i as int); }
                return i;
            }
            i = i + 1;
        }
        proof { lemma_find_session_absent(self.sessions@, sid@); }
        let ghost before = self.sessions@;
        let n = self.sessions.len();
        let fresh = ShellSession::new(String::from_str("."));
        let entry = (sid.clone(), fresh);
        self.sessions.push(entry);
        proof {
            assert forall|a: int, b: int| 0 <= a < b < self.sessions@.len() implies
                #[trigger] self.sessions@[a].0@ != #[trigger] self.sessions@[b].0@ by {
                if b == before.len() {
                    assert(before[a].0@ != sid@);
                } else {
                    assert(before[a].0@ != before[b].0@);
                }
            }
            assert forall|k: Seq<char>| k != sid@ implies #[trigger] find_session(self.sessions@, k) == find_session(before, k) by {
                lemma_find_session_push(before, entry, k);
            }
        }
        n
    }

    /// Apply a session command to the session at `i`; the id stays.
    fn apply_at(&mut self, i: usize, cmd: SessionCommand) -> (r: Result<Option<String>, crate::sandbox::error::ShellSessionError>)
        requires
            old(self).wf(),
            i < old(self).sessions@.len(),
        ensures
            final(self).wf(),
            final(self).sessions@.len() == old(self).sessions@.len(),
            final(self).sessions@[i as int].0 == old(self).sessions@[i as int].0,
            final(self).registry == old(self).registry,
            forall|k: Seq<char>| k != old(self).sessions@[i as int].0@ ==> #[trigger] final(self).session(k) == old(self).session(k),
            final(self).session(old(self).sessions@[i as int].0@) == Some(final(self).sessions@[i as int].1),
            ShellSession::apply_relation(old(self).sessions@[i as int].1, cmd, final(self).sessions@[i as int].1, r),
    {
        let ghost before = self.sessions@;
        let (k, mut s) = self.sessions.remove(i);
        let r = s.apply(cmd, &self.workspace);
        self.sessions.insert(i, (k, s));
        proof {
            assert(self.sessions@ =~= before.update(i as int, (before[i as int].0, s)));
            assert forall|a: int, b: int| 0 <= a < b < self.sessions@.len() implies
                #[trigger] self.sessions@[a].0@ != #[trigger] self.sessions@[b].0@ by {
                assert(self.sessions@[a].0 == before[a].0);
                assert(self.sessions@[b].0 == before[b].0);
            }
            assert forall|kk: Seq<char>| kk != before[i as int].0@ implies
                #[trigger] find_session(self.sessions@, kk) == find_session(before, kk) by {
                lemma_find_session_update(before, i as int, s, kk);
            }
            lemma_find_session_at(self.sessions@, i as int);
        }
        r
    }
}

/// The working directory a session would start from: its own, or the
/// workspace root for a session not created yet.
pub open spec fn prior_cwd(t: BashTool, sid: Seq<char>) -> Seq<char> {
    match t.session(sid) {
        Some(s) => s.cwd_spec(),
        None => "."@,
    }
}

/// The environment a session would start from.
pub open spec fn prior_env(t: BashTool, sid: Seq<char>) -> Map<Seq<char>, Seq<char>> {
    match t.session(sid) {
        Some(s) => s.env_spec(),
        None => Map::empty(),
    }
}

/// No session changed.
pub open spec fn sessions_kept(before: BashTool, after: BashTool) -> bool {
    forall|k: Seq<char>| #[trigger] after.session(k) == before.session(k)
}

/// Only session `sid` may have changed, and it now has working directory
/// `cwd` and environment `env`.
pub open spec fn session_set(before: BashTool, after: BashTool, sid: Seq<char>, cwd: Seq<char>, env: Map<Seq<char>, Seq<char>>) -> bool {
    &&& forall|k: Seq<char>| k != sid ==> #[trigger] after.session(k) == before.session(k)
    &&& after.session(sid) matches Some(s) && s.cwd_spec() == cwd && s.env_spec() == env
}

/// The sessions after a built-in that changes session `sid` (when one is
/// named) to `cwd` and `env`.
pub open spec fn sessions_after(before: BashTool, after: BashTool, sid: Option<String>, cwd: Seq<char>, env: Map<Seq<char>, Seq<char>>) -> bool {
    match sid {
        Some(s) => session_set(before, after, s@, cwd, env),
        None => sessions_kept(before, after),
    }
}

/// What a classified shell command comes to, for the tool `before` and
/// after the call.
pub open spec fn bash_step(before: BashTool, after: BashTool, sid: Option<String>, c: SessionCommand, r: BashStep) -> bool {
    match c {
        SessionCommand::Cd(p) => match resolve_spec(p@) {
            Err(_) => (r matches BashStep::Reply(Err(ToolError::Denied(m))) && m@ == "cd failed"@)
                && sessions_kept(before, after),
            Ok(q) => (r matches BashStep::Reply(Ok(x)) && x@ == q)
                && sessions_after(before, after, sid, q, match sid { Some(s) => prior_env(before, s@), None => Map::empty() }),
        },
        SessionCommand::Export(k, v) => (r matches BashStep::Reply(Ok(x)) && x@ == exported_text(k@, v@))
            && match sid {
                Some(s) => session_set(before, after, s@, prior_cwd(before, s@), prior_env(before, s@).insert(k@, v@)),
                None => sessions_kept(before, after),
            },
        SessionCommand::Unset(k) => match sid {
            Some(s) => if k@.len() == 0 {
                (r matches BashStep::Reply(Err(ToolError::Denied(m)))
                    && m@ == shell_session_error_message(crate::sandbox::error::ShellSessionError::MissingUnsetArgument))
                    && session_set(before, after, s@, prior_cwd(before, s@), prior_env(before, s@))
            } else {
                (r matches BashStep::Reply(Ok(x)) && x@ == "unset "@ + k@)
                    && session_set(before, after, s@, prior_cwd(before, s@), prior_env(before, s@).remove(k@))
            },
            None => (r matches BashStep::Reply(Ok(x)) && x@ == "unset "@ + k@) && sessions_kept(before, after),
        },
        SessionCommand::Pwd => (r matches BashStep::Reply(Ok(x)) && x@ == match sid {
                Some(s) => prior_cwd(before, s@),
                None => "."@,
            }) && sessions_kept(before, after),
        SessionCommand::Spawn(w) => sessions_kept(before, after) && {
            let bin = w@[0]@;
            let reg = before.registry_spec();
            if !reg.allows_all() && !reg.allowed().contains_key(bin) {
                r matches BashStep::Reply(Err(ToolError::Denied(m)))
                    && m@ == binary_error_message(crate::sandbox::error::BinaryError::NotAllowed(w@[0]))
            } else {
                r matches BashStep::Run(spec) && {
                    &&& spec.program@ == (if reg.allows_all() { bin } else { reg.allowed()[bin] })
                    &&& spec.args@ == w@.subrange(1, w@.len() as int)
                    &&& match sid {
                        None => spec.cwd@ == "."@ && spec.env@.len() == 0,
                        Some(s) => match before.session(s@) {
                            Some(sess) => spec.cwd@ == sess.cwd_spec()
                                && crate::strmap::entries_map(spec.env@) == sess.env_spec(),
                            None => spec.cwd@.len() == 0 && spec.env@.len() == 0,
                        },
                    }
                }
            }
        },
    }
}

impl BashTool {
    /// Handle a shell call: an empty command is refused, a cancelled call
    /// ends, and otherwise the command is classified and either answered
    /// from session state or turned into a command to run.
    pub fn handle(&mut self, args: &BashArgs, cancelled: bool) -> (r: BashStep)
        requires
            old(self).wf(),
        ensures
            final(self).wf(),
            final(self).registry_spec() == old(self).registry_spec(),
            args.command@.len() == 0 ==> (r matches BashStep::Reply(Err(ToolError::InvalidArgs(m))) && m@ == "Empty command"@)
                && sessions_kept(*old(self), *final(self)),
            args.command@.len() > 0 && cancelled ==> (r matches BashStep::Reply(Err(ToolError::Cancelled)))
                && sessions_kept(*old(self), *final(self)),
            args.command@.len() > 0 && !cancelled ==> exists|c: SessionCommand|
                classified(args.command@, c) && #[trigger] bash_step(*old(self), *final(self), args.session, c, r),
    {
        if args.command.len() == 0 {
            return BashStep::Reply(Err(ToolError::InvalidArgs(String::from_str("Empty command"))));
        }
        if cancelled {
            return BashStep::Reply(Err(ToolError::Cancelled));
        }
        let ghost before = *self;
        let c = ShellSession::classify(args.command.as_slice());
        let ghost gc = c;
        let r = self.run_builtin(args, c);
        assert(bash_step(before, *self, args.session, gc, r));
        r
    }

    fn run_builtin(&mut self, args: &BashArgs, c: SessionCommand) -> (r: BashStep)
        requires
            old(self).wf(),
            args.command@.len() > 0,
            classified(args.command@, c),
        ensures
            final(self).wf(),
            final(self).registry_spec() == old(self).registry_spec(),
            bash_step(*old(self), *final(self), args.session, c, r),
    {
        match c {
            SessionCommand::Cd(path) => {
                let resolved = match resolve_relative(path.as_str()) {
                    Ok(p) => p,
                    Err(_) => { return BashStep::Reply(Err(ToolError::Denied(String::from_str("cd failed")))); },
                };
                proof { lemma_resolved_path_is_confined(path@); }
                if let Some(sid) = &args.session {
                    let i = self.session_slot(sid);
                    let res = self.apply_at(i, SessionCommand::Cd(resolved.clone()));
                    if let Err(e) = res {
                        return BashStep::Reply(Err(ToolError::Denied(e.to_string())));
                    }
                }
                BashStep::Reply(Ok(resolved))
            },
            SessionCommand::Export(key, value) => {
                if let Some(sid) = &args.session {
                    let i = self.session_slot(sid);
                    let res = self.apply_at(i, SessionCommand::Export(key.clone(), value.clone()));
                    if let Err(e) = res {
                        return BashStep::Reply(Err(ToolError::Denied(e.to_string())));
                    }
                }
                let mut out = String::from_str("exported ");
                push_str(&mut out, key.as_str());
                push_str(&mut out, "=");
                push_str(&mut out, value.as_str());
                BashStep::Reply(Ok(out))
            },
            SessionCommand::Unset(key) => {
                if let Some(sid) = &args.session {
                    let i = self.session_slot(sid);
                    let res = self.apply_at(i, SessionCommand::Unset(key.clone()));
                    if let Err(e) = res {
                        return BashStep::Reply(Err(ToolError::Denied(e.to_string())));
                    }
                }
                let mut out = String::from_str("unset ");
                push_str(&mut out, key.as_str());
                BashStep::Reply(Ok(out))
            },
            SessionCommand::Pwd => {
                let cwd = match &args.session {
                    Some(sid) => match self.session_of(sid) {
                        Some(s) => s.cwd().clone(),
                        None => String::from_str("."),
                    },
                    None => String::from_str("."),
                };
                BashStep::Reply(Ok(cwd))
            },
            SessionCommand::Spawn(parts) => {
                let bin = &parts[0];
                let program = if self.registry.is_allow_all() {
                    bin.clone()
                } else {
                    match self.registry.resolve(bin.as_str()) {
                        Ok(p) => p,
                        Err(e) => { return BashStep::Reply(Err(ToolError::Denied(e.to_string()))); },
                    }
                };
                let mut rest: Vec<String> = Vec::new();
                let mut k: usize = 1;
                while k < parts.len()
                    invariant
                        1 <= k <= parts@.len(),
                        rest@ == parts@.subrange(1, k as int),
                    decreases parts@.len() - k,
                {
                    rest.push(parts[k].clone());
                    assert(rest@ =~= parts@.subrange(1, k + 1));
                    k = k + 1;
                }
                let (cwd, env) = match &args.session {
                    Some(sid) => match self.session_of(sid) {
                        Some(s) => (s.cwd().clone(), s.env().pairs()),
                        None => (String::new(), Vec::new()),
                    },
                    None => (String::from_str("."), Vec::new()),
                };
                BashStep::Run(CommandSpec { program, args: rest, cwd, env })
            },
        }
    }

    /// The session registered under `sid`.
    fn session_of(&self, sid: &String) -> (r: Option<&ShellSession>)
        requires
            self.wf(),
        ensures
            match self.session(sid@) {
                Some(s) => r matches Some(x) && *x == s,
                None => r is None,
            },
    {
        let mut i: usize = 0;
        while i < self.sessions.len()
            invariant
                i <= self.sessions@.len(),
                ids_distinct(self.sessions@),
                forall|j: int| 0 <= j < i ==> self.sessions@[j].0@ != sid@,
            decreases self.sessions@.len() - i,
        {
            if self.sessions[i].0 == *sid {
                proof { lemma_find_session_at(self.sessions@, i as int); }
                return Some(&self.sessions[i].1);
            }
            i = i + 1;
        }
        proof { lemma_find_session_absent(self.sessions@, sid@); }
        None
    }
}

impl Tool for BashTool {
    fn name(&self) -> (r: &str)
        ensures
            r@ == "bash"@,
    {
        "bash"
    }

    fn description(&self) -> (r: &str)
        ensures
            r@ == "Execute a command in the sandbox"@,
    {
        "Execute a command in the sandbox"
    }

    fn retryable(&self) -> (r: bool)
        ensures
            !r,
    {
        false
    }
}

} // verus!

verus! {

/// The action a command is answered with when the tool answers it itself
/// (the session built-ins); none for a command that is run.
pub open spec fn session_action(c: SessionCommand) -> Option<Seq<char>> {
    match c {
        SessionCommand::Cd(_) => Some("cd"@),
        SessionCommand::Export(_, _) => Some("export"@),
        SessionCommand::Unset(_) => Some("unset"@),
        SessionCommand::Pwd => Some("pwd"@),
        SessionCommand::Spawn(_) => None,
    }
}

/// The reply to a shell built-in that answered `output`: a success whose
/// metadata names the action (`{"action": "pwd"}` and so on); none for a
/// command that is run, whose reply is the executor's.
pub fn session_reply(command: &[String], output: String) -> (r: Option<ToolReply>)
    ensures
        forall|c: SessionCommand| #[trigger] classified(command@, c) ==> match session_action(c) {
            Some(a) => r matches Some(x) && x.success && x.output == output && json_view(x.metadata) == one_entry("action"@, a),
            None => r is None,
        },
{
    let c = ShellSession::classify(command);
    let action = match c {
        SessionCommand::Cd(_) => "cd",
        SessionCommand::Export(_, _) => "export",
        SessionCommand::Unset(_) => "unset",
        SessionCommand::Pwd => "pwd",
        SessionCommand::Spawn(_) => {
            return None;
        },
    };
    Some(ToolReply { success: true, output, metadata: string_entry("action", action) })
}

} // verus!
verus! {

/// A command that is no shell built-in, whose binary the allowlist (not in
/// allow-all mode) does not hold, is denied as "binary not allowed" and
/// nothing is run; the sessions stay as they were.
pub proof fn lemma_unlisted_binary_is_denied(
    before: BashTool,
    after: BashTool,
    sid: Option<String>,
    command: Seq<String>,
    c: SessionCommand,
    r: BashStep,
)
    requires
        command.len() > 0,
        classified(command, c),
        c is Spawn,
        !before.registry_spec().allows_all(),
        !before.registry_spec().allowed().contains_key(command[0]@),
        bash_step(before, after, sid, c, r),
    ensures
        r matches BashStep::Reply(Err(ToolError::Denied(m))) && m@ == "binary not allowed: "@ + command[0]@,
        sessions_kept(before, after),
{
}

} // verus!
