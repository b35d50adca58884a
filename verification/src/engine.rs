//! The command engine: classification of one input line into assignments,
//! arguments and a command name, `$NAME` expansion, built-in dispatch and
//! foreground-job tracking. The engine owns no process or file-system
//! effects: `execute_command` returns a [`Step`] naming the effect the caller must
//! perform, and the caller reports outcomes back through [`Shell::apply_cd`],
//! [`Shell::on_spawned`] and [`Shell::on_wait_done`].

use vstd::prelude::*;

use crate::env_store::EnvStore;
use crate::text::{
    eq_index, find_eq, has_eq, spec_tokens, str_eq, strip_leading, strip_leading_char, tokenize,
};

verus! {

/// The key/value pair an assignment token denotes: the part before the first
/// `=` with leading `$`s stripped, and the part after it with leading `=`s
/// stripped.
pub open spec fn assign_pair(t: Seq<char>) -> (Seq<char>, Seq<char>) {
    (
        strip_leading(t.subrange(0, eq_index(t)), '$'),
        strip_leading(t.subrange(eq_index(t), t.len() as int), '='),
    )
}

/// The assignment pairs of a token sequence, in token order. The command
/// name position is classified like any other token.
pub open spec fn assigns_of(toks: Seq<Seq<char>>) -> Seq<(Seq<char>, Seq<char>)>
    decreases toks.len(),
{
    if toks.len() == 0 {
        Seq::empty()
    } else if has_eq(toks.last()) {
        assigns_of(toks.drop_last()).push(assign_pair(toks.last()))
    } else {
        assigns_of(toks.drop_last())
    }
}

/// One round of variable expansion: a token starting with `$` whose name
/// (leading `$`s stripped) is bound is replaced by the bound value; any
/// other token is left unchanged.
pub open spec fn spec_expand(env: Map<Seq<char>, Seq<char>>, t: Seq<char>) -> Seq<char> {
    if t.len() > 0 && t[0] == '$' && env.contains_key(strip_leading(t, '$')) {
        env[strip_leading(t, '$')]
    } else {
        t
    }
}

/// The argument tokens (everything past the command name that is not an
/// assignment), after the first expansion pass.
pub open spec fn args1_of(toks: Seq<Seq<char>>, env: Map<Seq<char>, Seq<char>>) -> Seq<Seq<char>>
    decreases toks.len(),
{
    if toks.len() <= 1 {
        Seq::empty()
    } else if has_eq(toks.last()) {
        args1_of(toks.drop_last(), env)
    } else {
        args1_of(toks.drop_last(), env).push(spec_expand(env, toks.last()))
    }
}

/// The argument tokens after both expansion passes.
pub open spec fn args_of(toks: Seq<Seq<char>>, env: Map<Seq<char>, Seq<char>>) -> Seq<Seq<char>> {
    args1_of(toks, env).map_values(|t: Seq<char>| spec_expand(env, t))
}

/// A trailing `&` argument marks the command as a background job.
pub open spec fn is_background(args: Seq<Seq<char>>) -> bool {
    args.len() > 0 && args.last() == "&"@
}

/// The arguments with a trailing `&` marker removed.
pub open spec fn final_args(args: Seq<Seq<char>>) -> Seq<Seq<char>> {
    if is_background(args) {
        args.drop_last()
    } else {
        args
    }
}

/// The environment after writing each assignment pair in order; a later
/// write to the same key wins.
pub open spec fn apply_assigns(
    env: Map<Seq<char>, Seq<char>>,
    pairs: Seq<(Seq<char>, Seq<char>)>,
) -> Map<Seq<char>, Seq<char>>
    decreases pairs.len(),
{
    if pairs.len() == 0 {
        env
    } else {
        apply_assigns(env, pairs.drop_last()).insert(pairs.last().0, pairs.last().1)
    }
}

/// A path is absolute when it starts with the separator.
pub open spec fn is_absolute_path(t: Seq<char>) -> bool {
    t.len() > 0 && t[0] == '/'
}

/// Join a relative path onto a base directory with a single separator.
pub open spec fn path_join(base: Seq<char>, rel: Seq<char>) -> Seq<char> {
    if base.len() > 0 && base.last() == '/' {
        base + rel
    } else {
        base + "/"@ + rel
    }
}

/// A `cd` target resolved against the current working directory: an
/// absolute target stands on its own, a relative one is joined.
pub open spec fn spec_resolve(cwd: Seq<char>, target: Seq<char>) -> Seq<char> {
    if is_absolute_path(target) {
        target
    } else {
        path_join(cwd, target)
    }
}

/// The mathematical outcome of dispatching one tokenized line: the step the
/// caller must perform and the environment after the line.
pub enum SpecStep {
    Done,
    Assigned(Seq<(Seq<char>, Seq<char>)>),
    Unset(Seq<char>),
    UnsetUsage,
    Exit,
    Help,
    NoHome,
    Cd(Seq<char>),
    Spawn { name: Seq<char>, args: Seq<Seq<char>>, background: bool },
}

/// Dispatch of a tokenized line against an environment and a working
/// directory.
pub open spec fn spec_dispatch(
    env: Map<Seq<char>, Seq<char>>,
    cwd: Seq<char>,
    toks: Seq<Seq<char>>,
) -> (SpecStep, Map<Seq<char>, Seq<char>>) {
    if toks.len() == 0 {
        (SpecStep::Done, env)
    } else {
        let pairs = assigns_of(toks);
        if pairs.len() > 0 {
            (SpecStep::Assigned(pairs), apply_assigns(env, pairs))
        } else {
            let all_args = args_of(toks, env);
            let args = final_args(all_args);
            let cmd = toks[0];
            if cmd == "cd"@ {
                if args.len() == 0 {
                    if env.contains_key("HOME"@) {
                        (SpecStep::Cd(spec_resolve(cwd, env["HOME"@])), env)
                    } else {
                        (SpecStep::NoHome, env)
                    }
                } else {
                    (SpecStep::Cd(spec_resolve(cwd, args[0])), env)
                }
            } else if cmd == "exit"@ {
                (SpecStep::Exit, env)
            } else if cmd == "unset"@ {
                if args.len() == 0 {
                    (SpecStep::UnsetUsage, env)
                } else {
                    (SpecStep::Unset(args[0]), env.remove(args[0]))
                }
            } else if cmd == "help"@ {
                (SpecStep::Help, env)
            } else {
                (
                    SpecStep::Spawn { name: cmd, args, background: is_background(all_args) },
                    env,
                )
            }
        }
    }
}

/// What `execute_command` does with a whole line: tokenize, then dispatch.
pub open spec fn spec_execute(
    env: Map<Seq<char>, Seq<char>>,
    cwd: Seq<char>,
    line: Seq<char>,
) -> (SpecStep, Map<Seq<char>, Seq<char>>) {
    spec_dispatch(env, cwd, spec_tokens(line))
}

/// The effect the caller must perform after `execute_command` classified a line.
#[derive(Debug)]
pub enum Step {
    /// Nothing remains to be done for this line.
    Done,
    /// These pairs were written to the store; mirror them into the process
    /// environment. No command is run for such a line.
    Assigned(Vec<(String, String)>),
    /// This variable was dropped from the store; mirror the removal.
    Unset(String),
    /// `unset` was called without an argument; print its usage line.
    UnsetUsage,
    /// Terminate the shell with status 0.
    Exit,
    /// Print the static help text.
    Help,
    /// `cd` needed `HOME` and the store has no such variable; fatal.
    NoHome,
    /// Probe this resolved path, then report back through `apply_cd`.
    Cd(String),
    /// Spawn this external command in the current working directory.
    Spawn { name: String, args: Vec<String>, background: bool },
}

impl View for Step {
    type V = SpecStep;

    open spec fn view(&self) -> SpecStep {
        match self {
            Step::Done => SpecStep::Done,
            Step::Assigned(pairs) => SpecStep::Assigned(pairs.deep_view()),
            Step::Unset(name) => SpecStep::Unset(name@),
            Step::UnsetUsage => SpecStep::UnsetUsage,
            Step::Exit => SpecStep::Exit,
            Step::Help => SpecStep::Help,
            Step::NoHome => SpecStep::NoHome,
            Step::Cd(path) => SpecStep::Cd(path@),
            Step::Spawn { name, args, background } => SpecStep::Spawn {
                name: name@,
                args: args.deep_view(),
                background: *background,
            },
        }
    }
}

/// What a probe of a `cd` target found on disk.
#[derive(Debug, PartialEq, Eq, Structural, Clone, Copy)]
pub enum PathStatus {
    Missing,
    File,
    Dir,
}

/// How a `cd` request ended.
#[derive(Debug, PartialEq, Eq, Structural, Clone, Copy)]
pub enum CdOutcome {
    Changed,
    NotFound,
    NotADirectory,
}

/// The engine's state: variable bindings, the working directory, the
/// tracked foreground job and the configured prompt.
pub struct Shell {
    pub env: EnvStore,
    pub active_directory: String,
    pub current_task: Option<i32>,
    pub prompt: String,
}

impl Shell {
    pub fn new(prompt: String, active_directory: String, env: EnvStore) -> (r: Shell)
        requires
            env.wf(),
        ensures
            r.env == env,
            r.env.wf(),
            r.active_directory == active_directory,
            r.prompt == prompt,
            r.current_task is None,
    {
        Shell { env, active_directory, current_task: None, prompt }
    }

    /// Expand one token against the store, as the original expander did.
    pub fn process_env_vars(&self, arg: &str) -> (r: String)
        requires
            self.env.wf(),
        ensures
            r@ == spec_expand(self.env@, arg@),
    {
        if arg.unicode_len() > 0 && arg.get_char(0) == '$' {
            let name = strip_leading_char(arg, '$');
            match self.env.get(name.as_str()) {
                Some(v) => v.clone(),
                None => arg.to_owned(),
            }
        } else {
            arg.to_owned()
        }
    }

    /// Classify one line and perform its environment effects; the returned
    /// step names the outside effect still owed for the line.
    pub fn execute_command(&mut self, line: &str) -> (step: Step)
        requires
            old(self).env.wf(),
        ensures
            final(self).env.wf(),
            final(self).active_directory == old(self).active_directory,
            final(self).current_task == old(self).current_task,
            final(self).prompt == old(self).prompt,
            step@ == spec_execute(old(self).env@, old(self).active_directory@, line@).0,
            final(self).env@ == spec_execute(old(self).env@, old(self).active_directory@, line@).1,
    {
        let ghost env0 = old(self).env@;
        let ghost cwd0 = old(self).active_directory@;
        let ghost tv = spec_tokens(line@);
        let toks = tokenize(line);
        if toks.len() == 0 {
            return Step::Done;
        }

        let mut pairs: Vec<(String, String)> = Vec::new();
        let mut args1: Vec<String> = Vec::new();
        let mut idx: usize = 0;
        while idx < toks.len()
            invariant
                *self == *old(self),
                old(self).env.wf(),
                idx <= toks@.len(),
                toks.deep_view() == tv,
                pairs.deep_view() == assigns_of(tv.take(idx as int)),
                args1.deep_view() == args1_of(tv.take(idx as int), env0),
                env0 == old(self).env@,
            decreases toks@.len() - idx,
        {
            proof {
                assert(tv.take(idx as int + 1).drop_last() =~= tv.take(idx as int));
                assert(tv.take(idx as int + 1).last() == tv[idx as int]);
                assert(toks.deep_view()[idx as int] == toks@[idx as int]@);
            }
            let t = &toks[idx];
            match split_assignment(t.as_str()) {
                Some(p) => {
                    let ghost before = pairs.deep_view();
                    proof {
                        assert(p.deep_view() == assign_pair(tv[idx as int]));
                    }
                    pairs.push(p);
                    proof {
                        assert(pairs.deep_view() =~= before.push(assign_pair(tv[idx as int])));
                    }
                },
                None => {
                    let processed = self.process_env_vars(t.as_str());
                    if idx > 0 {
                        let ghost before = args1.deep_view();
                        args1.push(processed);
                        proof {
                            assert(args1.deep_view() =~= before.push(
                                spec_expand(env0, tv[idx as int]),
                            ));
                        }
                    }
                },
            }
            idx += 1;
        }
        proof {
            assert(tv.take(toks@.len() as int) =~= tv);
        }

        if pairs.len() > 0 {
            let ghost allp = assigns_of(tv);
            let mut j: usize = 0;
            while j < pairs.len()
                invariant
                    j <= pairs@.len(),
                    self.env.wf(),
                    pairs.deep_view() == allp,
                    self.env@ == apply_assigns(env0, allp.take(j as int)),
                    self.active_directory == old(self).active_directory,
                    self.current_task == old(self).current_task,
                    self.prompt == old(self).prompt,
                decreases pairs@.len() - j,
            {
                proof {
                    assert(allp.take(j as int + 1).drop_last() =~= allp.take(j as int));
                    assert(allp.take(j as int + 1).last() == allp[j as int]);
                    assert(pairs.deep_view()[j as int] == (pairs@[j as int].0@, pairs@[
                        j as int].1@));
                }
                let key = pairs[j].0.clone();
                let value = pairs[j].1.clone();
                self.env.set(key, value);
                j += 1;
            }
            proof {
                assert(allp.take(pairs@.len() as int) =~= allp);
            }
            return Step::Assigned(pairs);
        }

        let ghost a1 = args1_of(tv, env0);
        let mut args2: Vec<String> = Vec::new();
        let mut j: usize = 0;
        while j < args1.len()
            invariant
                *self == *old(self),
                old(self).env.wf(),
                env0 == old(self).env@,
                j <= args1@.len(),
                args1.deep_view() == a1,
                args2.deep_view() == a1.take(j as int).map_values(
                    |t: Seq<char>| spec_expand(env0, t),
                ),
            decreases args1@.len() - j,
        {
            proof {
                assert(args1.deep_view()[j as int] == args1@[j as int]@);
            }
            let processed = self.process_env_vars(args1[j].as_str());
            let ghost before = args2.deep_view();
            args2.push(processed);
            proof {
                assert(args2.deep_view() =~= before.push(spec_expand(env0, a1[j as int])));
                assert(a1.take(j as int + 1).map_values(|t: Seq<char>| spec_expand(env0, t)) =~= a1
                    .take(j as int).map_values(|t: Seq<char>| spec_expand(env0, t)).push(
                    spec_expand(env0, a1[j as int]),
                ));
            }
            j += 1;
        }
        proof {
            assert(a1.take(args1@.len() as int) =~= a1);
        }
        let ghost all_args = args_of(tv, env0);
        proof {
            assert(args2.deep_view() == all_args);
        }

        let mut background = false;
        if args2.len() > 0 && str_eq(args2[args2.len() - 1].as_str(), "&") {
            background = true;
            let ghost before = args2.deep_view();
            args2.pop();
            proof {
                assert(args2.deep_view() =~= before.drop_last());
            }
        }
        proof {
            assert(background == is_background(all_args));
            assert(args2.deep_view() == final_args(all_args));
        }

        proof {
            assert(toks.deep_view()[0] == toks@[0]@);
        }
        let cmd = &toks[0];
        if str_eq(cmd.as_str(), "cd") {
            if args2.len() == 0 {
                match self.env.get("HOME") {
                    Some(home) => {
                        let target = home.clone();
                        Step::Cd(
                            resolve_cd_target(self.active_directory.as_str(), target.as_str()),
                        )
                    },
                    None => Step::NoHome,
                }
            } else {
                proof {
                    assert(args2.deep_view()[0] == args2@[0]@);
                }
                Step::Cd(resolve_cd_target(self.active_directory.as_str(), args2[0].as_str()))
            }
        } else if str_eq(cmd.as_str(), "exit") {
            Step::Exit
        } else if str_eq(cmd.as_str(), "unset") {
            if args2.len() == 0 {
                Step::UnsetUsage
            } else {
                proof {
                    assert(args2.deep_view()[0] == args2@[0]@);
                }
                let name = args2[0].clone();
                self.env.remove(name.as_str());
                Step::Unset(name)
            }
        } else if str_eq(cmd.as_str(), "help") {
            Step::Help
        } else {
            Step::Spawn { name: cmd.clone(), args: args2, background }
        }
    }

    /// Commit or refuse a `cd` after the caller probed the resolved path:
    /// only an existing directory changes the working directory.
    pub fn apply_cd(&mut self, path: String, status: PathStatus) -> (r: CdOutcome)
        ensures
            final(self).env == old(self).env,
            final(self).current_task == old(self).current_task,
            final(self).prompt == old(self).prompt,
            status is Dir ==> final(self).active_directory == path && r is Changed,
            status is Missing ==> final(self).active_directory == old(self).active_directory
                && r is NotFound,
            status is File ==> final(self).active_directory == old(self).active_directory
                && r is NotADirectory,
    {
        match status {
            PathStatus::Missing => CdOutcome::NotFound,
            PathStatus::File => CdOutcome::NotADirectory,
            PathStatus::Dir => {
                self.active_directory = path;
                CdOutcome::Changed
            },
        }
    }

    /// Record the foreground child that is now being waited on.
    pub fn on_spawned(&mut self, pid: i32)
        ensures
            final(self).current_task == Some(pid),
            final(self).env == old(self).env,
            final(self).active_directory == old(self).active_directory,
            final(self).prompt == old(self).prompt,
    {
        self.current_task = Some(pid);
    }

    /// Forget the foreground child once its wait completed.
    pub fn on_wait_done(&mut self)
        ensures
            final(self).current_task is None,
            final(self).env == old(self).env,
            final(self).active_directory == old(self).active_directory,
            final(self).prompt == old(self).prompt,
    {
        self.current_task = None;
    }

    /// The process an interrupt is forwarded to: exactly the tracked
    /// foreground job, none when the engine is at the prompt.
    pub fn interrupt_target(&self) -> (r: Option<i32>)
        ensures
            r == self.current_task,
    {
        self.current_task
    }

    /// Forward an interrupt to the foreground job, if one is tracked; with
    /// no job the interrupt is absorbed and nothing is signalled.
    pub fn ctrlc(&self) -> (delivered: bool)
        ensures
            self.current_task is None ==> delivered,
    {
        match self.current_task {
            None => true,
            Some(pid) => send_sigint(pid),
        }
    }

    /// The line shown before reading input: working directory, a space, the
    /// configured prompt, a space.
    pub fn render_prompt(&self, pwd: &str) -> (r: String)
        ensures
            r@ == pwd@ + " "@ + self.prompt@ + " "@,
    {
        let mut s = pwd.to_owned();
        s.append(" ");
        s.append(self.prompt.as_str());
        s.append(" ");
        s
    }
}

/// Relies on `nix::sys::signal::kill`: delivers `SIGINT` to the process
/// whose id is `pid`; returns whether the kernel accepted the delivery.
#[verifier::external_body]
fn send_sigint(pid: i32) -> bool {
    nix::sys::signal::kill(nix::unistd::Pid::from_raw(pid), nix::sys::signal::Signal::SIGINT)
        .is_ok()
}

/// Split an assignment token at its first `=` into the pair it binds.
pub fn split_assignment(t: &str) -> (r: Option<(String, String)>)
    ensures
        match r {
            Some(p) => has_eq(t@) && p.deep_view() == assign_pair(t@),
            None => !has_eq(t@),
        },
{
    match find_eq(t) {
        Some(i) => {
            let key_part = t.substring_char(0, i);
            let val_part = t.substring_char(i, t.unicode_len());
            let key = strip_leading_char(key_part, '$');
            let value = strip_leading_char(val_part, '=');
            Some((key, value))
        },
        None => None,
    }
}

/// Resolve a `cd` target: an absolute target is taken as given, a relative
/// one is joined onto the working directory.
pub fn resolve_cd_target(cwd: &str, target: &str) -> (r: String)
    ensures
        r@ == spec_resolve(cwd@, target@),
{
    if target.unicode_len() > 0 && target.get_char(0) == '/' {
        target.to_owned()
    } else {
        let n = cwd.unicode_len();
        let mut s = cwd.to_owned();
        if n == 0 || cwd.get_char(n - 1) != '/' {
            s.append("/");
        }
        s.append(target);
        s
    }
}

/// The diagnostic for a `cd` target that does not exist.
pub fn dir_not_exist_message() -> (r: String)
    ensures
        r@ == "Directory does not exist."@,
{
    "Directory does not exist.".to_owned()
}

/// The diagnostic for a `cd` target that is a regular file.
pub fn not_a_directory_message() -> (r: String)
    ensures
        r@ == "Not a directory."@,
{
    "Not a directory.".to_owned()
}

/// The usage line printed when `unset` is called without an argument.
pub fn unset_usage_message() -> (r: String)
    ensures
        r@ == "Usage: unset <variable>"@,
{
    "Usage: unset <variable>".to_owned()
}

/// The diagnostic for a command name no executable was found for.
pub fn command_not_found_message(name: &str) -> (r: String)
    ensures
        r@ == "Command not found: "@ + name@,
{
    let mut s = "Command not found: ".to_owned();
    s.append(name);
    s
}

} // verus!
