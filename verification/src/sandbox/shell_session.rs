//! Shell session state: the working directory and environment that persist
//! across tool calls without a running shell. Classifying a command and
//! applying it are pure operations on that state.
use vstd::prelude::*;
use vstd::string::StringExecFns;
use crate::sandbox::error::ShellSessionError;
use crate::sandbox::workspace::{resolve_relative, resolve_spec, Workspace};
use crate::strmap::StrMap;
use crate::text::{chars_of, clone_strings, eq_chars, find, find_exec, lemma_find_result, string_of, slice_vec};

verus! {

/// A shell command classified by `ShellSession::classify`.
#[derive(Clone, Debug, PartialEq)]
pub enum SessionCommand {
    /// Change directory.
    Cd(String),
    /// Export an environment variable (`KEY=value`).
    Export(String, String),
    /// Unset an environment variable.
    Unset(String),
    /// Print working directory.
    Pwd,
    /// Spawn an external command.
    Spawn(Vec<String>),
}

/// The `i`-th word of a command line, or the empty text.
pub open spec fn word_or_empty(command: Seq<String>, i: int) -> Seq<char> {
    if 0 <= i < command.len() { command[i]@ } else { Seq::empty() }
}

/// Whether `c` is what `classify` returns for `command`.
pub open spec fn classified(command: Seq<String>, c: SessionCommand) -> bool {
    let first = word_or_empty(command, 0);
    if command.len() > 0 && first == "cd"@ {
        c matches SessionCommand::Cd(p) && p@ == word_or_empty(command, 1)
    } else if command.len() > 0 && first == "export"@ {
        let rest = word_or_empty(command, 1);
        match find(rest, seq!['=']) {
            Some(eq) => c matches SessionCommand::Export(k, v) && k@ == rest.subrange(0, eq)
                && v@ == rest.subrange(eq + 1, rest.len() as int),
            None => c matches SessionCommand::Export(k, v) && k@ == rest && v@.len() == 0,
        }
    } else if command.len() > 0 && first == "unset"@ {
        c matches SessionCommand::Unset(k) && k@ == word_or_empty(command, 1)
    } else if command.len() > 0 && first == "pwd"@ {
        c is Pwd
    } else {
        c matches SessionCommand::Spawn(w) && w@ == command
    }
}

/// Tracks state for a single interactive shell session.
#[derive(Debug)]
pub struct ShellSession {
    id: String,
    cwd: String,
    env: StrMap,
}

/// A fresh random session identifier (`uuid::Uuid::new_v4`, hyphenated).
#[verifier::external_body]
pub(crate) fn new_session_id() -> String {
    uuid::Uuid::new_v4().to_string()
}

fn word(command: &[String], i: usize) -> (r: String)
    ensures
        r@ == word_or_empty(command@, i as int),
{
    if i < command.len() {
        command[i].clone()
    } else {
        String::new()
    }
}

impl ShellSession {
    /// The working directory (workspace-relative).
    pub closed spec fn cwd_spec(self) -> Seq<char> {
        self.cwd@
    }

    /// The session environment.
    pub closed spec fn env_spec(self) -> Map<Seq<char>, Seq<char>> {
        self.env@
    }

    /// The session identifier.
    pub closed spec fn id_spec(self) -> Seq<char> {
        self.id@
    }

    /// Create a new session with the given initial working directory, an
    /// empty environment and a fresh random identifier.
    pub fn new(cwd: String) -> (r: Self)
        ensures
            r.cwd_spec() == cwd@,
            r.env_spec() == Map::<Seq<char>, Seq<char>>::empty(),
    {
        ShellSession { id: new_session_id(), cwd, env: StrMap::new() }
    }

    /// Unique session identifier.
    pub fn id(&self) -> (r: &String)
        ensures
            r@ == self.id_spec(),
    {
        &self.id
    }

    /// Current working directory (workspace-relative).
    pub fn cwd(&self) -> (r: &String)
        ensures
            r@ == self.cwd_spec(),
    {
        &self.cwd
    }

    /// Current environment variables.
    pub fn env(&self) -> (r: &StrMap)
        ensures
            r@ == self.env_spec(),
    {
        &self.env
    }

    /// Current environment variables, for direct edits.
    pub fn env_mut(&mut self) -> (r: &mut StrMap)
        ensures
            r@ == old(self).env_spec(),
            final(self).env_spec() == final(r)@,
            final(self).cwd_spec() == old(self).cwd_spec(),
            final(self).id_spec() == old(self).id_spec(),
    {
        &mut self.env
    }

    /// Classify a command-line argv into a `SessionCommand`: `cd`, `export`,
    /// `unset` and `pwd` are handled by the session, anything else is spawned.
    pub fn classify(command: &[String]) -> (r: SessionCommand)
        ensures
            classified(command@, r),
    {
        if command.len() == 0 {
            return SessionCommand::Spawn(clone_strings(command));
        }
        let first = chars_of(command[0].as_str());
        if eq_chars(&first, &chars_of("cd")) {
            SessionCommand::Cd(word(command, 1))
        } else if eq_chars(&first, &chars_of("export")) {
            let rest = word(command, 1);
            let rc = chars_of(rest.as_str());
            let mut eqv: Vec<char> = Vec::new();
            eqv.push('=');
            assert(eqv@ =~= seq!['=']);
            match find_exec(&rc, &eqv, 0) {
                Some(eq) => {
                    proof { lemma_find_result(rc@, eqv@); }
                    assert(find(rc@, eqv@) == Some(eq as int));
                    assert(eq + 1 <= rc.len());
                    let key = string_of(&slice_vec(&rc, 0, eq));
                    let value = string_of(&slice_vec(&rc, eq + 1, rc.len()));
                    SessionCommand::Export(key, value)
                },
                None => SessionCommand::Export(rest, String::new()),
            }
        } else if eq_chars(&first, &chars_of("unset")) {
            SessionCommand::Unset(word(command, 1))
        } else if eq_chars(&first, &chars_of("pwd")) {
            SessionCommand::Pwd
        } else {
            SessionCommand::Spawn(clone_strings(command))
        }
    }

    /// How `apply` relates the session `before` a command, the command,
    /// the session `after` it, and the reply.
    pub open spec fn apply_relation(
        before: ShellSession,
        cmd: SessionCommand,
        after: ShellSession,
        r: Result<Option<String>, ShellSessionError>,
    ) -> bool {
        match cmd {
                SessionCommand::Cd(p) => if p@.len() == 0 {
                    r matches Err(ShellSessionError::MissingCdArgument) && after == before
                } else {
                    match resolve_spec(p@) {
                        Ok(q) => r matches Ok(None) && after.cwd_spec() == q
                            && after.env_spec() == before.env_spec(),
                        Err(_) => (r matches Err(ShellSessionError::InvalidCwd(m)) && m@ == p@)
                            && after == before,
                    }
                },
                SessionCommand::Export(k, v) => r matches Ok(None)
                    && after.env_spec() == before.env_spec().insert(k@, v@)
                    && after.cwd_spec() == before.cwd_spec(),
                SessionCommand::Unset(k) => if k@.len() == 0 {
                    r matches Err(ShellSessionError::MissingUnsetArgument) && after == before
                } else {
                    r matches Ok(None) && after.env_spec() == before.env_spec().remove(k@)
                        && after.cwd_spec() == before.cwd_spec()
                },
                SessionCommand::Pwd => (r matches Ok(Some(c)) && c@ == before.cwd_spec()) && after == before,
                SessionCommand::Spawn(_) => r matches Ok(None) && after == before,
            }
    }

    /// Apply a classified command, mutating session state where appropriate:
    /// `cd` resolves the path inside the workspace and moves there, `export`
    /// sets a variable, `unset` removes one, `pwd` returns the working
    /// directory, and spawned commands are left to the caller.
    pub fn apply(&mut self, cmd: SessionCommand, workspace: &Workspace) -> (r: Result<Option<String>, ShellSessionError>)
        ensures
            Self::apply_relation(*old(self), cmd, *final(self), r),
    {
        match cmd {
            SessionCommand::Cd(path) => {
                if path.as_str().is_empty() {
                    return Err(ShellSessionError::MissingCdArgument);
                }
                match resolve_relative(path.as_str()) {
                    Ok(resolved) => {
                        self.cwd = resolved;
                        Ok(None)
                    },
                    Err(_) => Err(ShellSessionError::InvalidCwd(path)),
                }
            },
            SessionCommand::Export(key, value) => {
                self.env.insert(key, value);
                Ok(None)
            },
            SessionCommand::Unset(key) => {
                if key.as_str().is_empty() {
                    return Err(ShellSessionError::MissingUnsetArgument);
                }
                let _ = self.env.remove(key.as_str());
                Ok(None)
            },
            SessionCommand::Pwd => Ok(Some(self.cwd.clone())),
            SessionCommand::Spawn(_) => Ok(None),
        }
    }
}

} // verus!
