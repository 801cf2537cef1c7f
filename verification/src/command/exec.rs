//! The decisions of running a command: which profile to attach, which path
//! to list, how a transfer's end is answered, how a local command is run.
//! The caller performs what these decide (network, files, processes).

use vstd::prelude::*;

use crate::command::types::{
    opt_str_view, ExecMode, ExecOutcome, RemoteSpec, RemoteSpecModel,
};
use crate::error::{Error, ErrorModel};
use crate::local_path::{file_name, path_file_name};
use crate::session::{spec_cwd_display, Session};
use crate::text::{
    ascii_lower, ascii_lowercase, chars_eq_str, decimal, decimal_chars, ends_with_ch,
    ends_with_char, from_chars, push_all, push_str, to_chars, trim_end_ch, trim_end_char, trim_ws,
    trim_whitespace,
};

verus! {

// ---------------------------------------------------------------------------
// Remote targets
// ---------------------------------------------------------------------------

/// The path a remote target names; `None` for a bare `ls` target.
pub open spec fn spec_remote_path(spec: RemoteSpecModel) -> Option<Seq<char>> {
    match spec {
        RemoteSpecModel::Path(p) => Some(p),
        RemoteSpecModel::ProfilePath { path, .. } => Some(path),
        RemoteSpecModel::BareLsTarget(_) => None,
    }
}

/// The path a remote target names.
pub fn remote_path_from_spec(spec: &RemoteSpec) -> (r: Option<String>)
    ensures
        opt_str_view(r) == spec_remote_path(spec@),
{
    match spec {
        RemoteSpec::Path(path) => Some(path.clone()),
        RemoteSpec::ProfilePath { path, .. } => Some(path.clone()),
        RemoteSpec::BareLsTarget(_) => None,
    }
}

/// The profile to attach before a command on `spec` runs, if any: the named
/// profile of `profile:/path`; none for a path in the attached bucket
/// (which on the command line needs a bucket already attached).
pub open spec fn spec_profile_context(spec: RemoteSpecModel, mode: ExecMode, has_bucket: bool) -> Result<
    Option<Seq<char>>,
    ErrorModel,
> {
    match spec {
        RemoteSpecModel::ProfilePath { profile, .. } => Ok(Some(profile)),
        RemoteSpecModel::BareLsTarget(_) => Err(ErrorModel::ProfileRootNotPath),
        RemoteSpecModel::Path(_) => if mode == ExecMode::NonInteractive && !has_bucket {
            Err(ErrorModel::NoDefaultAttached)
        } else {
            Ok(None)
        },
    }
}

/// The profile to attach before a command on `spec` runs.
pub fn profile_to_attach(session: &Session, mode: ExecMode, spec: &RemoteSpec) -> (r: Result<
    Option<String>,
    Error,
>)
    ensures
        match r {
            Ok(p) => spec_profile_context(spec@, mode, session.bucket is Some) == Ok::<
                Option<Seq<char>>,
                ErrorModel,
            >(opt_str_view(p)),
            Err(e) => spec_profile_context(spec@, mode, session.bucket is Some) == Err::<
                Option<Seq<char>>,
                ErrorModel,
            >(e@),
        },
{
    match spec {
        RemoteSpec::ProfilePath { profile, .. } => Ok(Some(profile.clone())),
        RemoteSpec::BareLsTarget(_) => Err(Error::ProfileRootNotPath),
        RemoteSpec::Path(_) => {
            if mode == ExecMode::NonInteractive && session.current_bucket().is_none() {
                Err(Error::NoDefaultAttached)
            } else {
                Ok(None)
            }
        },
    }
}

/// What a command on one remote object needs: the profile to attach first
/// and the path to resolve once it is attached.
pub open spec fn spec_remote_operation(spec: RemoteSpecModel, mode: ExecMode, has_bucket: bool) -> Result<
    (Option<Seq<char>>, Seq<char>),
    ErrorModel,
> {
    match spec_remote_path(spec) {
        None => Err(ErrorModel::ExpectedRemotePath),
        Some(path) => match spec_profile_context(spec, mode, has_bucket) {
            Ok(attach) => Ok((attach, path)),
            Err(e) => Err(e),
        },
    }
}

/// What a command on one remote object needs.
pub fn plan_remote_operation(session: &Session, mode: ExecMode, spec: &RemoteSpec) -> (r: Result<
    (Option<String>, String),
    Error,
>)
    ensures
        match r {
            Ok((attach, path)) => spec_remote_operation(spec@, mode, session.bucket is Some)
                == Ok::<(Option<Seq<char>>, Seq<char>), ErrorModel>((opt_str_view(attach), path@)),
            Err(e) => spec_remote_operation(spec@, mode, session.bucket is Some) == Err::<
                (Option<Seq<char>>, Seq<char>),
                ErrorModel,
            >(e@),
        },
{
    let path = match remote_path_from_spec(spec) {
        Some(p) => p,
        None => return Err(Error::ExpectedRemotePath),
    };
    let attach = profile_to_attach(session, mode, spec)?;
    Ok((attach, path))
}

/// What `ls` does.
#[derive(Debug, Clone, PartialEq, Eq)]
pub enum LsPlan {
    /// Print the profile names.
    ListProfiles,
    /// Attach `attach` first (if any), then list the remote directory `path`.
    List { attach: Option<String>, path: String },
}

/// The model of [`LsPlan`].
pub ghost enum LsPlanModel {
    ListProfiles,
    List { attach: Option<Seq<char>>, path: Seq<char> },
}

impl View for LsPlan {
    type V = LsPlanModel;

    open spec fn view(&self) -> LsPlanModel {
        match self {
            LsPlan::ListProfiles => LsPlanModel::ListProfiles,
            LsPlan::List { attach, path } => LsPlanModel::List {
                attach: opt_str_view(*attach),
                path: path@,
            },
        }
    }
}

/// What `ls` does: with no target, the current directory, or on the
/// command line the default profile's root, or the profile names where no
/// default is set; a bare name lists that profile's root, else that path
/// under the default profile.
pub open spec fn spec_ls_plan(
    mode: ExecMode,
    target: Option<RemoteSpecModel>,
    is_profile: spec_fn(Seq<char>) -> bool,
    default_profile: Option<Seq<char>>,
    has_bucket: bool,
) -> Result<LsPlanModel, ErrorModel> {
    match target {
        None => if mode == ExecMode::NonInteractive {
            match default_profile {
                Some(d) => Ok(LsPlanModel::List { attach: Some(d), path: seq!['.'] }),
                None => Ok(LsPlanModel::ListProfiles),
            }
        } else {
            Ok(LsPlanModel::List { attach: None, path: seq!['.'] })
        },
        Some(RemoteSpecModel::ProfilePath { profile, path }) => Ok(
            LsPlanModel::List { attach: Some(profile), path },
        ),
        Some(RemoteSpecModel::BareLsTarget(name)) => if is_profile(name) {
            Ok(LsPlanModel::List { attach: Some(name), path: seq!['.'] })
        } else {
            match default_profile {
                Some(d) => Ok(LsPlanModel::List { attach: Some(d), path: name }),
                None => Err(ErrorModel::UnknownLsTarget(name)),
            }
        },
        Some(RemoteSpecModel::Path(path)) => {
            let attach = if mode == ExecMode::NonInteractive && !has_bucket {
                default_profile
            } else {
                None
            };
            Ok(LsPlanModel::List { attach, path })
        },
    }
}

/// `ls <profile>:<path>` lists `<path>` in the bucket of the profile it
/// names: it attaches that profile, whatever the mode, the default profile
/// and the bucket already attached; and a bare name that is a profile
/// lists that profile's root.
pub proof fn law_ls_named_profile_is_attached(
    mode: ExecMode,
    profile: Seq<char>,
    path: Seq<char>,
    is_profile: spec_fn(Seq<char>) -> bool,
    default_profile: Option<Seq<char>>,
    has_bucket: bool,
)
    ensures
        spec_ls_plan(
            mode,
            Some(RemoteSpecModel::ProfilePath { profile, path }),
            is_profile,
            default_profile,
            has_bucket,
        ) == Ok::<LsPlanModel, ErrorModel>(LsPlanModel::List { attach: Some(profile), path }),
        is_profile(profile) ==> spec_ls_plan(
            mode,
            Some(RemoteSpecModel::BareLsTarget(profile)),
            is_profile,
            default_profile,
            has_bucket,
        ) == Ok::<LsPlanModel, ErrorModel>(
            LsPlanModel::List { attach: Some(profile), path: seq!['.'] },
        ),
{
}

/// The path `.`: the current directory.
fn dot_path() -> (r: String)
    ensures
        r@ == seq!['.'],
{
    let mut v: Vec<char> = Vec::new();
    v.push('.');
    from_chars(&v)
}

/// What `ls` does in the current session.
pub fn plan_ls(session: &Session, mode: ExecMode, target: Option<&RemoteSpec>) -> (r: Result<
    LsPlan,
    Error,
>)
    ensures
        crate::error::result_view(r) == spec_ls_plan(
            mode,
            match target {
                Some(t) => Some(t@),
                None => None,
            },
            |n: Seq<char>| session.profiles.lookup(n) is Some,
            opt_str_view(session.default_profile),
            session.bucket is Some,
        ),
{
    let ghost dd = opt_str_view(session.default_profile);
    let default = match session.default_profile_name() {
        Some(d) => Some(d.to_owned()),
        None => None,
    };
    assert(opt_str_view(default) == dd);
    match target {
        None => {
            if mode == ExecMode::NonInteractive {
                match default {
                    Some(d) => Ok(LsPlan::List { attach: Some(d), path: dot_path() }),
                    None => Ok(LsPlan::ListProfiles),
                }
            } else {
                Ok(LsPlan::List { attach: None, path: dot_path() })
            }
        },
        Some(RemoteSpec::ProfilePath { profile, path }) => Ok(
            LsPlan::List { attach: Some(profile.clone()), path: path.clone() },
        ),
        Some(RemoteSpec::BareLsTarget(name)) => {
            if session.has_profile(name.as_str()) {
                Ok(LsPlan::List { attach: Some(name.clone()), path: dot_path() })
            } else {
                match default {
                    Some(d) => Ok(LsPlan::List { attach: Some(d), path: name.clone() }),
                    None => Err(Error::UnknownLsTarget(name.clone())),
                }
            }
        },
        Some(RemoteSpec::Path(path)) => {
            let attach = if mode == ExecMode::NonInteractive && session.current_bucket().is_none() {
                default
            } else {
                None
            };
            Ok(LsPlan::List { attach, path: path.clone() })
        },
    }
}

/// Whether an upload first asks if `remote` is an existing remote
/// directory: where it is given and does not end in `/` (for a recursive
/// upload, also not `.` and not `/`).
pub open spec fn spec_probes_remote_dir(remote: Option<Seq<char>>, recursive: bool) -> bool {
    match remote {
        None => false,
        Some(r) => !ends_with_ch(r, '/') && (!recursive || (r != seq!['.'] && r != seq!['/'])),
    }
}

/// Whether an upload asks if its remote path is an existing directory.
pub fn probes_remote_dir(remote: Option<&str>, recursive: bool) -> (r: bool)
    ensures
        r == spec_probes_remote_dir(crate::command::parse::opt_str_view(remote), recursive),
{
    match remote {
        None => false,
        Some(r) => {
            let rc = to_chars(r);
            if ends_with_char(&rc, '/') {
                return false;
            }
            if !recursive {
                return true;
            }
            let is_here = rc.len() == 1 && (rc[0] == '.' || rc[0] == '/');
            proof {
                if r@ == seq!['.'] {
                    assert(rc@.len() == 1 && rc@[0] == '.');
                }
                if r@ == seq!['/'] {
                    assert(rc@.len() == 1 && rc@[0] == '/');
                }
                if is_here {
                    assert(r@ =~= seq![rc@[0]]);
                }
            }
            !is_here
        },
    }
}

// ---------------------------------------------------------------------------
// cd and rm
// ---------------------------------------------------------------------------

/// Whether `cd` to the resolved key checks that the directory exists: all
/// but the bucket root are checked.
pub fn cd_needs_check(resolved: &str) -> (r: bool)
    ensures
        r == (resolved@.len() > 0),
{
    !resolved.is_empty()
}

/// The error of `cd` to a remote directory that does not exist.
pub fn missing_dir_error(resolved: &str) -> (r: Error)
    ensures
        r@ == ErrorModel::NoSuchRemoteDir(spec_cwd_display(resolved@)),
{
    let rc = to_chars(resolved);
    let mut out: Vec<char> = Vec::new();
    out.push('/');
    if rc.len() > 0 {
        push_all(&mut out, &trim_end_char(&rc, '/'));
    }
    proof {
        if rc@.len() == 0 {
            assert(out@ =~= seq!['/']);
        } else {
            assert(out@ =~= seq!['/'] + trim_end_ch(resolved@, '/'));
        }
    }
    Error::NoSuchRemoteDir(from_chars(&out))
}

/// What a recursive `rm` does once the keys are listed.
#[derive(Debug, Clone, Copy, PartialEq, Eq, Structural)]
pub enum RmStep {
    /// There is nothing to delete.
    NothingToDelete,
    /// Ask the user to confirm first.
    Confirm,
    /// Delete the keys.
    Delete,
}

/// What a recursive `rm` does: nothing without keys; with `-y`, or on the
/// command line, delete; in the shell without `-y`, ask first.
pub fn recursive_rm_step(key_count: usize, yes: bool, mode: ExecMode) -> (r: RmStep)
    ensures
        key_count == 0 ==> r == RmStep::NothingToDelete,
        key_count > 0 && (yes || mode == ExecMode::NonInteractive) ==> r == RmStep::Delete,
        key_count > 0 && !yes && mode == ExecMode::Interactive ==> r == RmStep::Confirm,
{
    if key_count == 0 {
        return RmStep::NothingToDelete;
    }
    if yes {
        return RmStep::Delete;
    }
    match mode {
        ExecMode::NonInteractive => RmStep::Delete,
        ExecMode::Interactive => RmStep::Confirm,
    }
}

/// The question asked before a recursive delete.
pub open spec fn spec_delete_prompt(count: nat, prefix: Seq<char>) -> Seq<char> {
    "delete "@ + decimal(count) + " object(s) under "@ + spec_cwd_display(prefix) + "? [y/N] "@
}

/// The question asked before deleting `count` objects under `prefix`.
pub fn delete_prompt(count: usize, prefix: &str) -> (r: String)
    ensures
        r@ == spec_delete_prompt(count as nat, prefix@),
{
    let pc = to_chars(prefix);
    let mut out: Vec<char> = Vec::new();
    push_str(&mut out, "delete ");
    push_all(&mut out, &decimal_chars(count as u64));
    push_str(&mut out, " object(s) under ");
    out.push('/');
    if pc.len() > 0 {
        push_all(&mut out, &trim_end_char(&pc, '/'));
    }
    push_str(&mut out, "? [y/N] ");
    proof {
        if pc@.len() == 0 {
            assert(out@ =~= spec_delete_prompt(count as nat, prefix@));
        } else {
            assert(out@ =~= spec_delete_prompt(count as nat, prefix@));
        }
    }
    from_chars(&out)
}

/// The answer confirms: `y` or `yes`, in any case, around whitespace.
pub open spec fn spec_is_affirmative(answer: Seq<char>) -> bool {
    let a = ascii_lower(trim_ws(answer));
    a == seq!['y'] || a == seq!['y', 'e', 's']
}

/// Whether the answer to the delete question confirms it.
pub fn is_affirmative(answer: &str) -> (r: bool)
    ensures
        r == spec_is_affirmative(answer@),
{
    let a = ascii_lowercase(&trim_whitespace(&to_chars(answer)));
    let y = a.len() == 1 && a[0] == 'y';
    let yes = a.len() == 3 && a[0] == 'y' && a[1] == 'e' && a[2] == 's';
    proof {
        if a@ == seq!['y'] {
            assert(a@.len() == 1 && a@[0] == 'y');
        }
        if a@ == seq!['y', 'e', 's'] {
            assert(a@.len() == 3 && a@[0] == 'y' && a@[1] == 'e' && a@[2] == 's');
        }
        if y {
            assert(a@ =~= seq!['y']);
        }
        if yes {
            assert(a@ =~= seq!['y', 'e', 's']);
        }
    }
    y || yes
}

// ---------------------------------------------------------------------------
// Transfers
// ---------------------------------------------------------------------------

/// How a single transfer's end is answered: success and interruption keep
/// the shell going (an interruption ends the command line with 130); any
/// other failure is passed on.
pub fn finish_transfer<E>(mode: ExecMode, result: Result<(), E>, interrupted: bool) -> (r: Result<
    ExecOutcome,
    E,
>)
    ensures
        result is Ok ==> r == Ok::<ExecOutcome, E>(ExecOutcome::Continue),
        result is Err && interrupted ==> r == match mode {
            ExecMode::Interactive => Ok::<ExecOutcome, E>(ExecOutcome::Continue),
            ExecMode::NonInteractive => Ok::<ExecOutcome, E>(ExecOutcome::ExitCode(130)),
        },
        result is Err && !interrupted ==> r == match result {
            Err(e) => Err::<ExecOutcome, E>(e),
            Ok(_) => Ok::<ExecOutcome, E>(ExecOutcome::Continue),
        },
{
    match result {
        Ok(()) => Ok(ExecOutcome::Continue),
        Err(e) => {
            if interrupted {
                match mode {
                    ExecMode::Interactive => Ok(ExecOutcome::Continue),
                    ExecMode::NonInteractive => Ok(ExecOutcome::ExitCode(130)),
                }
            } else {
                Err(e)
            }
        },
    }
}

// ---------------------------------------------------------------------------
// Local shell commands
// ---------------------------------------------------------------------------

/// The script an interactive login shell runs: it loads the user's aliases,
/// then evaluates the command given as `$1`.
pub open spec fn spec_shell_command(shell_name: Seq<char>) -> Seq<char> {
    if shell_name == "zsh"@ {
        "setopt aliases\nsource ~/.zshrc >/dev/null 2>&1 || true\neval \"$1\""@
    } else if shell_name == "bash"@ {
        "shopt -s expand_aliases\nsource ~/.bashrc >/dev/null 2>&1 || true\neval \"$1\""@
    } else {
        "eval \"$1\""@
    }
}

/// The script that runs a local command in `shell_name`.
pub fn build_shell_command(shell_name: &str) -> (r: String)
    ensures
        r@ == spec_shell_command(shell_name@),
{
    if str_is(shell_name, "zsh") {
        "setopt aliases\nsource ~/.zshrc >/dev/null 2>&1 || true\neval \"$1\"".to_owned()
    } else if str_is(shell_name, "bash") {
        "shopt -s expand_aliases\nsource ~/.bashrc >/dev/null 2>&1 || true\neval \"$1\"".to_owned()
    } else {
        "eval \"$1\"".to_owned()
    }
}

/// Whether `a` and `b` are the same text.
fn str_is(a: &str, b: &str) -> (r: bool)
    ensures
        r == (a@ == b@),
{
    chars_eq_str(&to_chars(a), b)
}

/// How a local command is started: the program and its arguments.
#[derive(Debug, Clone, PartialEq, Eq)]
pub struct ShellInvocation {
    pub program: String,
    pub args: Vec<String>,
}

/// The shell that runs local commands: `$SHELL`, else `/bin/sh`.
pub open spec fn spec_shell_path(shell_env: Option<Seq<char>>) -> Seq<char> {
    match shell_env {
        Some(s) => s,
        None => "/bin/sh"@,
    }
}

/// The name of the shell, by which its flags are chosen.
pub open spec fn spec_shell_name(shell_path: Seq<char>) -> Seq<char> {
    match file_name(shell_path) {
        Some(n) => n,
        None => Seq::<char>::empty(),
    }
}

/// The arguments given to the shell: zsh and bash run as login shells with
/// the alias-loading script, the shell's name as `$0` and the command as
/// `$1`; other shells get `-c` and the command.
pub open spec fn spec_shell_args(shell_name: Seq<char>, command: Seq<char>) -> Seq<Seq<char>> {
    if shell_name == "zsh"@ || shell_name == "bash"@ {
        seq!["-lc"@, spec_shell_command(shell_name), shell_name, command]
    } else {
        seq!["-c"@, command]
    }
}

/// How `!command` is run; `None` where the command is blank and nothing
/// runs. `shell_env` is the value of `SHELL`, where it is set.
pub fn local_shell_invocation(shell_env: Option<&str>, command: &str) -> (r: Option<
    ShellInvocation,
>)
    ensures
        trim_ws(command@).len() == 0 ==> r is None,
        trim_ws(command@).len() > 0 ==> (r matches Some(inv) && inv.program@ == spec_shell_path(
            crate::command::parse::opt_str_view(shell_env),
        ) && crate::text::strings_view(inv.args@) == spec_shell_args(
            spec_shell_name(spec_shell_path(crate::command::parse::opt_str_view(shell_env))),
            command@,
        )),
{
    if trim_whitespace(&to_chars(command)).len() == 0 {
        return None;
    }
    let shell = match shell_env {
        Some(s) => s.to_owned(),
        None => "/bin/sh".to_owned(),
    };
    let name = match path_file_name(shell.as_str()) {
        Some(n) => n,
        None => String::new(),
    };
    let mut args: Vec<String> = Vec::new();
    if str_is(name.as_str(), "zsh") || str_is(name.as_str(), "bash") {
        args.push("-lc".to_owned());
        args.push(build_shell_command(name.as_str()));
        args.push(name);
        args.push(command.to_owned());
        proof {
            assert(crate::text::strings_view(args@) =~= spec_shell_args(
                spec_shell_name(shell@),
                command@,
            ));
        }
    } else {
        args.push("-c".to_owned());
        args.push(command.to_owned());
        proof {
            assert(crate::text::strings_view(args@) =~= spec_shell_args(
                spec_shell_name(shell@),
                command@,
            ));
        }
    }
    Some(ShellInvocation { program: shell, args })
}

} // verus!
