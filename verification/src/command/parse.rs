//! Turning a command line, or the words of one, into a [`Command`].

use vstd::prelude::*;

use super::resolve::{parse_ls_target, parse_remote_spec, spec_parse_ls_target, spec_parse_remote_spec};
use super::types::{Command, CommandModel, ExecMode, RemoteSpec, RemoteSpecModel, opt_spec_view};
use crate::error::{Error, ErrorModel, Usage, ShellOnly};
use crate::text::{
    chars_eq_str, has_prefix, push_all, starts_with_ch, starts_with_char, sub_chars,
    to_chars, from_chars,
};

verus! {

/// The words of `line` as `shlex::split` splits it, or `None` where it
/// refuses the line (unbalanced quotes, a trailing backslash).
pub uninterp spec fn shlex_words(line: Seq<char>) -> Option<Seq<Seq<char>>>;

/// `shlex::split`: the words of a line under POSIX shell quoting. The contract
/// names the result and ties it to the line; what the splitting rules are is
/// left to the `shlex` crate.
#[verifier::external_body]
pub(crate) fn shell_words(line: &str) -> (r: Option<Vec<String>>)
    ensures
        match r {
            Some(words) => shlex_words(line@) == Some(words.deep_view()),
            None => shlex_words(line@) is None,
        },
{
    shlex::split(line)
}

/// The model of an optional string slice.
pub open spec fn opt_str_view(s: Option<&str>) -> Option<Seq<char>> {
    match s {
        Some(s) => Some(s@),
        None => None,
    }
}

/// The model of a parse result.
pub open spec fn parse_view(r: Result<Option<Command>, Error>) -> Result<
    Option<CommandModel>,
    ErrorModel,
> {
    match r {
        Ok(Some(c)) => Ok(Some(c@)),
        Ok(None) => Ok(None),
        Err(e) => Err(e@),
    }
}

/// `~` and `~/rest` with the home directory put in, when it is known.
pub open spec fn spec_expand_tilde(path: Seq<char>, home: Option<Seq<char>>) -> Seq<char> {
    if starts_with_ch(path, '~') && home is Some {
        if path == seq!['~'] {
            home->0
        } else if has_prefix(path, seq!['~', '/']) {
            home->0 + seq!['/'] + path.skip(2)
        } else {
            path
        }
    } else {
        path
    }
}

/// An optional `-r` at position `start`: whether it is there, and where the
/// arguments after it begin.
pub open spec fn spec_parse_recursive_flag(parts: Seq<Seq<char>>, start: int) -> (bool, int) {
    if 0 <= start < parts.len() && parts[start] == "-r"@ {
        (true, start + 1)
    } else {
        (false, start)
    }
}

/// `put [-r] <local> [remote]`.
pub open spec fn spec_parse_put(
    parts: Seq<Seq<char>>,
    mode: ExecMode,
    home: Option<Seq<char>>,
) -> Result<Option<CommandModel>, ErrorModel> {
    let (recursive, idx) = spec_parse_recursive_flag(parts, 1);
    if parts.len() <= idx {
        Err(ErrorModel::Usage(Usage::Put))
    } else if mode == ExecMode::NonInteractive && parts.len() > idx + 2 {
        Err(ErrorModel::Usage(Usage::PutProfile))
    } else {
        let local = spec_expand_tilde(parts[idx], home);
        if idx + 1 < parts.len() {
            match spec_parse_remote_spec(parts[idx + 1], mode) {
                Ok(remote) => Ok(Some(CommandModel::Put { local, remote: Some(remote), recursive })),
                Err(e) => Err(e),
            }
        } else {
            Ok(Some(CommandModel::Put { local, remote: None, recursive }))
        }
    }
}

/// `get [-r] <remote> [local]`.
pub open spec fn spec_parse_get(
    parts: Seq<Seq<char>>,
    mode: ExecMode,
    home: Option<Seq<char>>,
) -> Result<Option<CommandModel>, ErrorModel> {
    let (recursive, idx) = spec_parse_recursive_flag(parts, 1);
    if parts.len() <= idx {
        Err(ErrorModel::Usage(Usage::Get))
    } else if mode == ExecMode::NonInteractive && parts.len() > idx + 2 {
        Err(ErrorModel::Usage(Usage::Get))
    } else {
        match spec_parse_remote_spec(parts[idx], mode) {
            Ok(remote) => {
                let local = if idx + 1 < parts.len() {
                    Some(spec_expand_tilde(parts[idx + 1], home))
                } else {
                    None
                };
                Ok(Some(CommandModel::Get { remote, local, recursive }))
            },
            Err(e) => Err(e),
        }
    }
}

/// The arguments of `rm`, read left to right: the flags seen and the target,
/// or the first error.
pub open spec fn spec_rm_scan(args: Seq<Seq<char>>, mode: ExecMode) -> Result<
    (bool, bool, Option<RemoteSpecModel>),
    ErrorModel,
>
    decreases args.len(),
{
    if args.len() == 0 {
        Ok((false, false, None))
    } else {
        match spec_rm_scan(args.drop_last(), mode) {
            Err(e) => Err(e),
            Ok((recursive, yes, remote)) => {
                let arg = args.last();
                if arg == "-r"@ {
                    Ok((true, yes, remote))
                } else if arg == "-y"@ || arg == "--yes"@ {
                    Ok((recursive, true, remote))
                } else if remote is Some {
                    Err(ErrorModel::Usage(Usage::Rm))
                } else {
                    match spec_parse_remote_spec(arg, mode) {
                        Ok(spec) => Ok((recursive, yes, Some(spec))),
                        Err(e) => Err(e),
                    }
                }
            },
        }
    }
}

/// `rm [-r] [-y] <remote>`, flags in any order.
pub open spec fn spec_parse_rm(parts: Seq<Seq<char>>, mode: ExecMode) -> Result<
    Option<CommandModel>,
    ErrorModel,
> {
    match spec_rm_scan(parts.skip(1), mode) {
        Err(e) => Err(e),
        Ok((recursive, yes, None)) => Err(
            ErrorModel::Usage(
                if recursive {
                    Usage::RmDir
                } else {
                    Usage::Rm
                },
            ),
        ),
        Ok((recursive, yes, Some(remote))) => Ok(Some(CommandModel::Rm { remote, recursive, yes })),
    }
}

/// The command named by the first word, with the words after it as its arguments.
pub open spec fn spec_parse_command_parts(
    parts: Seq<Seq<char>>,
    mode: ExecMode,
    home: Option<Seq<char>>,
) -> Result<Option<CommandModel>, ErrorModel> {
    if parts.len() == 0 {
        Ok(None)
    } else {
        let first = parts[0];
        if first == "help"@ {
            Ok(Some(CommandModel::Help))
        } else if first == "exit"@ {
            if mode == ExecMode::NonInteractive {
                Err(ErrorModel::OnlyInteractive(ShellOnly::Exit))
            } else {
                Ok(Some(CommandModel::Exit))
            }
        } else if first == "pwd"@ {
            if mode == ExecMode::NonInteractive {
                Err(ErrorModel::OnlyInteractive(ShellOnly::Pwd))
            } else {
                Ok(Some(CommandModel::Pwd))
            }
        } else if first == "ls"@ {
            if parts.len() > 1 {
                match spec_parse_ls_target(parts[1], mode) {
                    Ok(t) => Ok(Some(CommandModel::Ls { target: Some(t) })),
                    Err(e) => Err(e),
                }
            } else {
                Ok(Some(CommandModel::Ls { target: None }))
            }
        } else if first == "cd"@ {
            if mode == ExecMode::NonInteractive {
                Err(ErrorModel::OnlyInteractive(ShellOnly::Cd))
            } else {
                Ok(
                    Some(
                        CommandModel::Cd {
                            target: if parts.len() > 1 {
                                parts[1]
                            } else {
                                "/"@
                            },
                        },
                    ),
                )
            }
        } else if first == "mkdir"@ {
            if parts.len() < 2 {
                Err(ErrorModel::Usage(Usage::Mkdir))
            } else {
                match spec_parse_remote_spec(parts[1], mode) {
                    Ok(t) => Ok(Some(CommandModel::Mkdir { target: t })),
                    Err(e) => Err(e),
                }
            }
        } else if first == "put"@ {
            spec_parse_put(parts, mode, home)
        } else if first == "get"@ {
            spec_parse_get(parts, mode, home)
        } else if first == "rm"@ {
            spec_parse_rm(parts, mode)
        } else {
            Err(ErrorModel::UnknownCommand(first))
        }
    }
}

/// A word list from the command line: `!<command>` runs a local shell
/// command; anything else is a shell command.
pub open spec fn spec_parse_command_argv(
    args: Seq<Seq<char>>,
    mode: ExecMode,
    home: Option<Seq<char>>,
) -> Result<Option<CommandModel>, ErrorModel> {
    if args.len() == 0 {
        Ok(None)
    } else if starts_with_ch(args[0], '!') {
        Ok(Some(CommandModel::Shell { command: args[0].drop_first() }))
    } else {
        spec_parse_command_parts(args, mode, home)
    }
}

/// A line of the interactive shell: `!<command>` runs a local shell command;
/// anything else is split into words as a POSIX shell would.
pub open spec fn spec_parse_command_line(
    line: Seq<char>,
    mode: ExecMode,
    home: Option<Seq<char>>,
) -> Result<Option<CommandModel>, ErrorModel> {
    if starts_with_ch(line, '!') {
        Ok(Some(CommandModel::Shell { command: line.drop_first() }))
    } else {
        match shlex_words(line) {
            None => Err(ErrorModel::CommandLineSyntax),
            Some(parts) => spec_parse_command_parts(parts, mode, home),
        }
    }
}

/// `-r` right after `get` or `put` asks for a recursive transfer and
/// changes nothing else: with it the command parses as without it, with
/// `recursive` set; without it a successful parse is not recursive. The
/// remote of `get` is the word after the command and its flag.
pub proof fn law_recursive_flag_is_dash_r(
    cmd: Seq<char>,
    rest: Seq<Seq<char>>,
    mode: ExecMode,
    home: Option<Seq<char>>,
)
    requires
        cmd == "get"@ || cmd == "put"@,
        rest.len() == 0 || rest[0] != "-r"@,
    ensures
        ({
            let plain = spec_parse_command_parts(seq![cmd] + rest, mode, home);
            let flagged = spec_parse_command_parts(seq![cmd, "-r"@] + rest, mode, home);
            &&& match plain {
                Ok(Some(CommandModel::Get { remote, local, recursive })) => {
                    &&& !recursive
                    &&& flagged == Ok::<Option<CommandModel>, ErrorModel>(
                        Some(CommandModel::Get { remote, local, recursive: true }),
                    )
                    &&& spec_parse_remote_spec(rest[0], mode) == Ok::<RemoteSpecModel, ErrorModel>(
                        remote,
                    )
                },
                Ok(Some(CommandModel::Put { local, remote, recursive })) => {
                    &&& !recursive
                    &&& flagged == Ok::<Option<CommandModel>, ErrorModel>(
                        Some(CommandModel::Put { local, remote, recursive: true }),
                    )
                },
                Ok(_) => false,
                Err(e) => flagged == Err::<Option<CommandModel>, ErrorModel>(e),
            }
        }),
{
    reveal_strlit("get");
    reveal_strlit("put");
    reveal_strlit("-r");
    reveal_strlit("help");
    reveal_strlit("exit");
    reveal_strlit("pwd");
    reveal_strlit("ls");
    reveal_strlit("cd");
    reveal_strlit("mkdir");
    reveal_strlit("rm");
    let p0 = seq![cmd] + rest;
    let p1 = seq![cmd, "-r"@] + rest;
    assert(p0[0] == cmd);
    assert(p1[0] == cmd);
    assert(p1[1] == "-r"@);
    assert(p0.len() == rest.len() + 1);
    assert(p1.len() == rest.len() + 2);
    assert(forall|k: int| 0 <= k < rest.len() ==> p0[k + 1] == rest[k] && p1[k + 2] == rest[k]);
    if rest.len() > 0 {
        assert(p0[1] == rest[0]);
        assert(p1[2] == rest[0]);
    }
    assert(cmd.len() == 3);
    assert(cmd != "help"@ && cmd != "exit"@ && cmd != "mkdir"@);
    assert(cmd != "ls"@ && cmd != "cd"@ && cmd != "rm"@);
    assert(cmd != "pwd"@) by {
        if cmd == "get"@ {
            assert(cmd[0] != "pwd"@[0]);
        } else {
            assert(cmd[1] != "pwd"@[1]);
        }
    }
    assert(cmd == "put"@ ==> cmd != "get"@) by {
        if cmd == "put"@ {
            assert(cmd[0] != "get"@[0]);
        }
    }
    assert(spec_parse_recursive_flag(p0, 1) == (false, 1int));
    assert(spec_parse_recursive_flag(p1, 1) == (true, 2int));
    if cmd == "get"@ {
        assert(spec_parse_command_parts(p0, mode, home) == spec_parse_get(p0, mode, home));
        assert(spec_parse_command_parts(p1, mode, home) == spec_parse_get(p1, mode, home));
        if rest.len() > 1 {
            assert(p0[2] == rest[1]);
            assert(p1[3] == rest[1]);
        }
    } else {
        assert(spec_parse_command_parts(p0, mode, home) == spec_parse_put(p0, mode, home));
        assert(spec_parse_command_parts(p1, mode, home) == spec_parse_put(p1, mode, home));
        if rest.len() > 1 {
            assert(p0[2] == rest[1]);
            assert(p1[3] == rest[1]);
        }
    }
}

/// The shell and the command line agree: a line that does not start with
/// `!` means what its words mean on the command line, as long as the first
/// word does not start with `!` either.
pub proof fn law_line_parses_as_its_words(
    line: Seq<char>,
    words: Seq<Seq<char>>,
    mode: ExecMode,
    home: Option<Seq<char>>,
)
    requires
        !starts_with_ch(line, '!'),
        shlex_words(line) == Some(words),
        words.len() == 0 || !starts_with_ch(words[0], '!'),
    ensures
        spec_parse_command_line(line, mode, home) == spec_parse_command_argv(words, mode, home),
{
}

/// Puts the home directory in for a leading `~` or `~/`; `home` is the value
/// of `HOME`, or `None` where it is not set.
pub fn expand_tilde(path: &str, home: Option<&str>) -> (r: String)
    ensures
        r@ == spec_expand_tilde(path@, opt_str_view(home)),
{
    let v = to_chars(path);
    if starts_with_char(&v, '~') {
        match home {
            Some(h) => {
                if v.len() == 1 {
                    proof {
                        assert(path@ =~= seq!['~']);
                    }
                    return h.to_owned();
                }
                if v[1] == '/' {
                    proof {
                        assert(path@.take(2) =~= seq!['~', '/']);
                    }
                    let mut out = to_chars(h);
                    out.push('/');
                    let rest = sub_chars(&v, 2, v.len());
                    push_all(&mut out, &rest);
                    proof {
                        assert(rest@ =~= path@.skip(2));
                    }
                    return from_chars(&out);
                }
                proof {
                    assert(path@ != seq!['~']);
                    assert(path@.take(2) != seq!['~', '/']) by {
                        assert(path@.take(2)[1] == path@[1]);
                    }
                }
                path.to_owned()
            },
            None => path.to_owned(),
        }
    } else {
        path.to_owned()
    }
}

/// An optional `-r` at position `start`.
pub fn parse_recursive_flag(parts: &[String], start: usize) -> (r: (bool, usize))
    requires
        start < usize::MAX,
    ensures
        (r.0, r.1 as int) == spec_parse_recursive_flag(parts.deep_view(), start as int),
{
    if start < parts.len() {
        let w = to_chars(parts[start].as_str());
        if chars_eq_str(&w, "-r") {
            return (true, start + 1);
        }
    }
    (false, start)
}

/// `put [-r] <local> [remote]`.
fn parse_put(parts: &[String], mode: ExecMode, home: Option<&str>) -> (r: Result<
    Option<Command>,
    Error,
>)
    ensures
        parse_view(r) == spec_parse_put(parts.deep_view(), mode, opt_str_view(home)),
{
    let (recursive, idx) = parse_recursive_flag(parts, 1);
    if parts.len() <= idx {
        return Err(Error::Usage(Usage::Put));
    }
    if mode == ExecMode::NonInteractive && parts.len() > idx + 2 {
        return Err(Error::Usage(Usage::PutProfile));
    }
    let local = expand_tilde(parts[idx].as_str(), home);
    if idx + 1 < parts.len() {
        let remote = parse_remote_spec(parts[idx + 1].as_str(), mode)?;
        Ok(Some(Command::Put { local, remote: Some(remote), recursive }))
    } else {
        Ok(Some(Command::Put { local, remote: None, recursive }))
    }
}

/// `get [-r] <remote> [local]`.
fn parse_get(parts: &[String], mode: ExecMode, home: Option<&str>) -> (r: Result<
    Option<Command>,
    Error,
>)
    ensures
        parse_view(r) == spec_parse_get(parts.deep_view(), mode, opt_str_view(home)),
{
    let (recursive, idx) = parse_recursive_flag(parts, 1);
    if parts.len() <= idx {
        return Err(Error::Usage(Usage::Get));
    }
    if mode == ExecMode::NonInteractive && parts.len() > idx + 2 {
        return Err(Error::Usage(Usage::Get));
    }
    let remote = parse_remote_spec(parts[idx].as_str(), mode)?;
    let local = if idx + 1 < parts.len() {
        Some(expand_tilde(parts[idx + 1].as_str(), home))
    } else {
        None
    };
    Ok(Some(Command::Get { remote, local, recursive }))
}

/// An error in a prefix of the arguments of `rm` is the error of all of them.
proof fn lemma_rm_scan_err(args: Seq<Seq<char>>, k: int, mode: ExecMode)
    requires
        0 <= k <= args.len(),
        spec_rm_scan(args.take(k), mode) is Err,
    ensures
        spec_rm_scan(args, mode) == spec_rm_scan(args.take(k), mode),
    decreases args.len() - k,
{
    if k < args.len() {
        assert(args.drop_last().take(k) =~= args.take(k));
        lemma_rm_scan_err(args.drop_last(), k, mode);
    } else {
        assert(args.take(k) =~= args);
    }
}

/// `rm [-r] [-y] <remote>`.
fn parse_rm(parts: &[String], mode: ExecMode) -> (r: Result<Option<Command>, Error>)
    requires
        parts@.len() >= 1,
    ensures
        parse_view(r) == spec_parse_rm(parts.deep_view(), mode),
{
    let ghost args = parts.deep_view().skip(1);
    let mut recursive = false;
    let mut yes = false;
    let mut remote: Option<RemoteSpec> = None;
    let mut i: usize = 1;
    proof {
        assert(args.take(0) =~= Seq::<Seq<char>>::empty());
    }
    while i < parts.len()
        invariant
            1 <= i <= parts@.len(),
            args == parts.deep_view().skip(1),
            spec_rm_scan(args.take(i - 1), mode) == Ok::<
                (bool, bool, Option<RemoteSpecModel>),
                ErrorModel,
            >((recursive, yes, opt_spec_view(remote))),
        decreases parts@.len() - i,
    {
        let ghost before = args.take(i - 1);
        proof {
            assert(args.take(i as int).drop_last() =~= before);
            assert(args.take(i as int).last() == parts@[i as int]@);
        }
        let w = to_chars(parts[i].as_str());
        if chars_eq_str(&w, "-r") {
            recursive = true;
        } else if chars_eq_str(&w, "-y") || chars_eq_str(&w, "--yes") {
            yes = true;
        } else {
            if remote.is_some() {
                proof {
                    lemma_rm_scan_err(args, i as int, mode);
                }
                return Err(Error::Usage(Usage::Rm));
            }
            match parse_remote_spec(parts[i].as_str(), mode) {
                Ok(spec) => {
                    remote = Some(spec);
                },
                Err(e) => {
                    proof {
                        lemma_rm_scan_err(args, i as int, mode);
                    }
                    return Err(e);
                },
            }
        }
        i = i + 1;
    }
    proof {
        assert(args.take(i - 1) =~= args);
    }
    match remote {
        Some(remote) => Ok(Some(Command::Rm { remote, recursive, yes })),
        None => {
            if recursive {
                Err(Error::Usage(Usage::RmDir))
            } else {
                Err(Error::Usage(Usage::Rm))
            }
        },
    }
}

/// The command named by the first word, with the words after it as its
/// arguments; `home` is the value of `HOME` for `~` in local paths.
pub fn parse_command_parts(parts: &[String], mode: ExecMode, home: Option<&str>) -> (r: Result<
    Option<Command>,
    Error,
>)
    ensures
        parse_view(r) == spec_parse_command_parts(parts.deep_view(), mode, opt_str_view(home)),
{
    if parts.len() == 0 {
        return Ok(None);
    }
    let first = to_chars(parts[0].as_str());
    if chars_eq_str(&first, "help") {
        Ok(Some(Command::Help))
    } else if chars_eq_str(&first, "exit") {
        match mode {
            ExecMode::NonInteractive => Err(Error::OnlyInteractive(ShellOnly::Exit)),
            ExecMode::Interactive => Ok(Some(Command::Exit)),
        }
    } else if chars_eq_str(&first, "pwd") {
        match mode {
            ExecMode::NonInteractive => Err(Error::OnlyInteractive(ShellOnly::Pwd)),
            ExecMode::Interactive => Ok(Some(Command::Pwd)),
        }
    } else if chars_eq_str(&first, "ls") {
        if parts.len() > 1 {
            let target = parse_ls_target(parts[1].as_str(), mode)?;
            Ok(Some(Command::Ls { target: Some(target) }))
        } else {
            Ok(Some(Command::Ls { target: None }))
        }
    } else if chars_eq_str(&first, "cd") {
        match mode {
            ExecMode::NonInteractive => Err(Error::OnlyInteractive(ShellOnly::Cd)),
            ExecMode::Interactive => {
                let target = if parts.len() > 1 {
                    parts[1].as_str().to_owned()
                } else {
                    "/".to_owned()
                };
                Ok(Some(Command::Cd { target }))
            },
        }
    } else if chars_eq_str(&first, "mkdir") {
        if parts.len() < 2 {
            return Err(Error::Usage(Usage::Mkdir));
        }
        let target = parse_remote_spec(parts[1].as_str(), mode)?;
        Ok(Some(Command::Mkdir { target }))
    } else if chars_eq_str(&first, "put") {
        parse_put(parts, mode, home)
    } else if chars_eq_str(&first, "get") {
        parse_get(parts, mode, home)
    } else if chars_eq_str(&first, "rm") {
        parse_rm(parts, mode)
    } else {
        Err(Error::UnknownCommand(parts[0].as_str().to_owned()))
    }
}

/// The words of a command given on the command line; `home` is the value of
/// `HOME` for `~` in local paths.
pub fn parse_command_argv(args: &[String], mode: ExecMode, home: Option<&str>) -> (r: Result<
    Option<Command>,
    Error,
>)
    ensures
        parse_view(r) == spec_parse_command_argv(args.deep_view(), mode, opt_str_view(home)),
{
    if args.len() == 0 {
        return Ok(None);
    }
    let first = to_chars(args[0].as_str());
    if starts_with_char(&first, '!') {
        let command = sub_chars(&first, 1, first.len());
        proof {
            assert(command@ =~= args.deep_view()[0].drop_first());
        }
        return Ok(Some(Command::Shell { command: from_chars(&command) }));
    }
    parse_command_parts(args, mode, home)
}

/// A line typed into the interactive shell; `home` is the value of `HOME`
/// for `~` in local paths.
pub fn parse_command_line(line: &str, mode: ExecMode, home: Option<&str>) -> (r: Result<
    Option<Command>,
    Error,
>)
    ensures
        parse_view(r) == spec_parse_command_line(line@, mode, opt_str_view(home)),
{
    let v = to_chars(line);
    if starts_with_char(&v, '!') {
        let command = sub_chars(&v, 1, v.len());
        proof {
            assert(command@ =~= line@.drop_first());
        }
        return Ok(Some(Command::Shell { command: from_chars(&command) }));
    }
    match shell_words(line) {
        None => Err(Error::CommandLineSyntax),
        Some(parts) => parse_command_parts(parts.as_slice(), mode, home),
    }
}

} // verus!
