use bucketctl::command::parse::{parse_command_argv, parse_command_line};
use bucketctl::command::resolve::{
    normalize_remote_spec, parse_ls_target, parse_remote_spec, parse_remote_target,
};
use bucketctl::command::types::{Command, ExecMode, RemoteSpec};
use bucketctl::dispatch::is_command_token;
use bucketctl::error::{Error, ShellOnly, Usage};

#[test]
fn argv_put_preserves_spaces_in_local_path() {
    let args = vec![
        "put".to_owned(),
        "./my file.txt".to_owned(),
        "mybucket:/key".to_owned(),
    ];
    let cmd = parse_command_argv(&args, ExecMode::NonInteractive, None)
        .unwrap()
        .unwrap();
    assert_eq!(
        cmd,
        Command::Put {
            local: "./my file.txt".to_owned(),
            remote: Some(RemoteSpec::ProfilePath {
                profile: "mybucket".to_owned(),
                path: "/key".to_owned(),
            }),
            recursive: false,
        }
    );
}

#[test]
fn argv_get_parses_remote_path_with_spaces() {
    let args = vec![
        "get".to_owned(),
        "mybucket:/path with space".to_owned(),
        "./out".to_owned(),
    ];
    let cmd = parse_command_argv(&args, ExecMode::NonInteractive, None)
        .unwrap()
        .unwrap();
    assert_eq!(
        cmd,
        Command::Get {
            remote: RemoteSpec::ProfilePath {
                profile: "mybucket".to_owned(),
                path: "/path with space".to_owned(),
            },
            local: Some("./out".to_owned()),
            recursive: false,
        }
    );
}

#[test]
fn repl_put_preserves_spaces_via_shlex() {
    let cmd = parse_command_line("put './my file.txt' remote/", ExecMode::Interactive, None)
        .unwrap()
        .unwrap();
    assert_eq!(
        cmd,
        Command::Put {
            local: "./my file.txt".to_owned(),
            remote: Some(RemoteSpec::Path("remote/".to_owned())),
            recursive: false,
        }
    );
}

#[test]
fn repl_get_rejects_profile_reference() {
    assert!(parse_command_line("get profile:foo", ExecMode::Interactive, None).is_err());
}

#[test]
fn argv_ls_bare_name_is_ambiguous_target() {
    let args = vec!["ls".to_owned(), "myprofile".to_owned()];
    let cmd = parse_command_argv(&args, ExecMode::NonInteractive, None)
        .unwrap()
        .unwrap();
    assert_eq!(
        cmd,
        Command::Ls {
            target: Some(RemoteSpec::BareLsTarget("myprofile".to_owned())),
        }
    );
}

#[test]
fn argv_ls_absolute_path() {
    let args = vec!["ls".to_owned(), "/path".to_owned()];
    let cmd = parse_command_argv(&args, ExecMode::NonInteractive, None)
        .unwrap()
        .unwrap();
    assert_eq!(
        cmd,
        Command::Ls {
            target: Some(RemoteSpec::Path("/path".to_owned())),
        }
    );
}

#[test]
fn argv_cd_rejected_noninteractive() {
    let args = vec!["cd".to_owned(), "/x".to_owned()];
    assert!(parse_command_argv(&args, ExecMode::NonInteractive, None).is_err());
}

#[test]
fn argv_rm_parses_recursive_and_yes_flags_in_any_order() {
    let args = vec![
        "rm".to_owned(),
        "-y".to_owned(),
        "-r".to_owned(),
        "mybucket:/prefix".to_owned(),
    ];
    let cmd = parse_command_argv(&args, ExecMode::NonInteractive, None)
        .unwrap()
        .unwrap();
    assert_eq!(
        cmd,
        Command::Rm {
            remote: RemoteSpec::ProfilePath {
                profile: "mybucket".to_owned(),
                path: "/prefix".to_owned(),
            },
            recursive: true,
            yes: true,
        }
    );
}

#[test]
fn parse_remote_target_splits_profile_and_path() {
    let (profile, remote) = parse_remote_target("mybucket:/path/to").unwrap();
    assert_eq!(profile, "mybucket");
    assert_eq!(remote, "/path/to");
}

#[test]
fn parse_remote_target_rejects_missing_profile() {
    assert!(parse_remote_target(":/path").is_err());
}

#[test]
fn normalize_remote_spec_trims() {
    assert_eq!(normalize_remote_spec("  /x  ").as_deref(), Some("/x"));
    assert!(normalize_remote_spec("").is_none());
}

#[test]
fn parse_remote_spec_rejects_profile_in_interactive_mode() {
    assert!(parse_remote_spec("mybucket:/path", ExecMode::Interactive).is_err());
}

#[test]
fn recognizes_builtin_commands() {
    assert!(is_command_token("ls"));
    assert!(is_command_token("completion"));
    assert!(is_command_token("config"));
    assert!(is_command_token("!pwd"));
}

#[test]
fn rejects_profile_names() {
    assert!(!is_command_token("my-bucket"));
    assert!(!is_command_token("cloudflare-r2"));
}

#[test]
fn parse_errors_name_the_problem() {
    let args = vec!["exit".to_owned()];
    assert_eq!(
        parse_command_argv(&args, ExecMode::NonInteractive, None),
        Err(Error::OnlyInteractive(ShellOnly::Exit))
    );
    let args = vec!["mkdir".to_owned()];
    assert_eq!(
        parse_command_argv(&args, ExecMode::Interactive, None),
        Err(Error::Usage(Usage::Mkdir))
    );
    let args = vec!["frobnicate".to_owned()];
    assert_eq!(
        parse_command_argv(&args, ExecMode::Interactive, None),
        Err(Error::UnknownCommand("frobnicate".to_owned()))
    );
    assert_eq!(
        parse_command_line("get 'unbalanced", ExecMode::Interactive, None),
        Err(Error::CommandLineSyntax)
    );
    let args = vec!["put".to_owned()];
    assert_eq!(
        parse_command_argv(&args, ExecMode::Interactive, None),
        Err(Error::Usage(Usage::Put))
    );
    let args = vec!["put".to_owned(), "a".to_owned(), "b".to_owned(), "c".to_owned()];
    assert_eq!(
        parse_command_argv(&args, ExecMode::NonInteractive, None),
        Err(Error::Usage(Usage::PutProfile))
    );
    let args = vec!["rm".to_owned(), "-r".to_owned()];
    assert_eq!(
        parse_command_argv(&args, ExecMode::Interactive, None),
        Err(Error::Usage(Usage::RmDir))
    );
    let args = vec!["rm".to_owned(), "a".to_owned(), "b".to_owned()];
    assert_eq!(
        parse_command_argv(&args, ExecMode::Interactive, None),
        Err(Error::Usage(Usage::Rm))
    );
}

#[test]
fn parse_expands_home_in_local_paths() {
    let args = vec!["put".to_owned(), "~/notes.txt".to_owned()];
    let cmd = parse_command_argv(&args, ExecMode::Interactive, Some("/home/ann"))
        .unwrap()
        .unwrap();
    assert_eq!(
        cmd,
        Command::Put {
            local: "/home/ann/notes.txt".to_owned(),
            remote: None,
            recursive: false,
        }
    );
}

#[test]
fn shell_escapes_and_empty_lines() {
    assert_eq!(
        parse_command_line("!ls -la", ExecMode::Interactive, None),
        Ok(Some(Command::Shell {
            command: "ls -la".to_owned()
        }))
    );
    assert_eq!(parse_command_line("", ExecMode::Interactive, None), Ok(None));
    assert_eq!(
        parse_command_line("cd", ExecMode::Interactive, None),
        Ok(Some(Command::Cd {
            target: "/".to_owned()
        }))
    );
}

#[test]
fn remote_target_errors() {
    assert_eq!(parse_remote_target("nocolon"), Err(Error::ExpectedRemoteTarget));
    assert_eq!(
        parse_remote_target(":/path"),
        Err(Error::InvalidProfileRef(":/path".to_owned()))
    );
    assert_eq!(
        parse_remote_target("p:   "),
        Err(Error::MissingRemotePath("p:   ".to_owned()))
    );
    assert_eq!(
        parse_ls_target("p:/x", ExecMode::Interactive),
        Err(Error::ProfileRefInteractive)
    );
    assert_eq!(
        parse_ls_target("rel", ExecMode::Interactive),
        Ok(RemoteSpec::Path("rel".to_owned()))
    );
}
