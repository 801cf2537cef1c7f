use bucketctl::cli::{startup_action, Cli, Startup};
use bucketctl::command::exec::{
    build_shell_command, cd_needs_check, delete_prompt, is_affirmative, local_shell_invocation,
    missing_dir_error, plan_ls, plan_remote_operation, probes_remote_dir, profile_to_attach,
    recursive_rm_step, LsPlan, RmStep,
};
use bucketctl::command::types::{ExecMode, RemoteSpec};
use bucketctl::config::{ProfileConfig, ProfileMap};
use bucketctl::error::Error;
use bucketctl::key_set::{sort_paths, sort_strings, sorted_unique};
use bucketctl::paths::{default_config_path, history_path};
use bucketctl::session::Session;
use bucketctl::text::parse_u64;

fn cli(args: &[&str]) -> Cli {
    Cli {
        config: None,
        version: false,
        help: false,
        args: args.iter().map(|a| a.to_string()).collect(),
    }
}

#[test]
fn startup_follows_the_first_argument() {
    assert_eq!(startup_action(&cli(&[])), Startup::ChooseProfile);
    assert_eq!(startup_action(&cli(&["init"])), Startup::Init { force: false });
    assert_eq!(startup_action(&cli(&["init", "x", "--force"])), Startup::Init { force: true });
    assert_eq!(startup_action(&cli(&["ls"])), Startup::RunCommand);
    assert_eq!(startup_action(&cli(&["!pwd"])), Startup::RunCommand);
    assert_eq!(startup_action(&cli(&["mybucket"])), Startup::OpenProfile);
    assert_eq!(startup_action(&cli(&["mybucket", "ls"])), Startup::Reject);
    let mut c = cli(&["ls"]);
    c.version = true;
    assert_eq!(startup_action(&c), Startup::Version);
    c.help = true;
    assert_eq!(startup_action(&c), Startup::Help);
}

#[test]
fn history_path_under_local_state() {
    let path = history_path(Some("/home/ann")).expect("HOME should be set in test env");
    assert!(path.ends_with(".local/state/bucketctl/history"));
    assert_eq!(path, "/home/ann/.local/state/bucketctl/history");
    assert_eq!(
        default_config_path(Some("/home/ann/")).as_deref(),
        Some("/home/ann/.config/bucketctl/config.toml")
    );
    assert_eq!(history_path(None), None);
}

#[test]
fn shell_commands_load_aliases() {
    assert_eq!(
        build_shell_command("zsh"),
        "setopt aliases\nsource ~/.zshrc >/dev/null 2>&1 || true\neval \"$1\""
    );
    assert_eq!(
        build_shell_command("bash"),
        "shopt -s expand_aliases\nsource ~/.bashrc >/dev/null 2>&1 || true\neval \"$1\""
    );
    assert_eq!(build_shell_command("fish"), "eval \"$1\"");
    let inv = local_shell_invocation(Some("/usr/bin/zsh"), "ll").unwrap();
    assert_eq!(inv.program, "/usr/bin/zsh");
    assert_eq!(inv.args[0], "-lc");
    assert_eq!(inv.args[2], "zsh");
    assert_eq!(inv.args[3], "ll");
    let inv = local_shell_invocation(None, "ls").unwrap();
    assert_eq!(inv.program, "/bin/sh");
    assert_eq!(inv.args, vec!["-c".to_owned(), "ls".to_owned()]);
    assert!(local_shell_invocation(None, "   ").is_none());
}

#[test]
fn delete_confirmation() {
    assert!(is_affirmative(" Y\n"));
    assert!(is_affirmative("yes"));
    assert!(is_affirmative("YeS "));
    assert!(!is_affirmative("yep"));
    assert!(!is_affirmative(""));
    assert_eq!(delete_prompt(3, "a/b/"), "delete 3 object(s) under /a/b? [y/N] ");
    assert_eq!(delete_prompt(0, ""), "delete 0 object(s) under /? [y/N] ");
    assert_eq!(recursive_rm_step(0, false, ExecMode::NonInteractive), RmStep::NothingToDelete);
    assert_eq!(recursive_rm_step(2, true, ExecMode::NonInteractive), RmStep::Delete);
    assert_eq!(recursive_rm_step(2, false, ExecMode::Interactive), RmStep::Confirm);
    assert_eq!(recursive_rm_step(2, true, ExecMode::Interactive), RmStep::Delete);
    assert_eq!(recursive_rm_step(2, false, ExecMode::NonInteractive), RmStep::Delete);
}

#[test]
fn cd_checks_all_but_the_root() {
    assert!(!cd_needs_check(""));
    assert!(cd_needs_check("a"));
    assert_eq!(missing_dir_error("a/b/"), Error::NoSuchRemoteDir("/a/b".to_owned()));
    assert_eq!(missing_dir_error(""), Error::NoSuchRemoteDir("/".to_owned()));
}

#[test]
fn uploads_probe_for_remote_directories() {
    assert!(!probes_remote_dir(None, false));
    assert!(probes_remote_dir(Some("x"), false));
    assert!(!probes_remote_dir(Some("x/"), false));
    assert!(probes_remote_dir(Some("."), false));
    assert!(!probes_remote_dir(Some("."), true));
    assert!(!probes_remote_dir(Some("/"), true));
    assert!(probes_remote_dir(Some("d"), true));
}

fn profile() -> ProfileConfig {
    ProfileConfig {
        bucket: "b".to_owned(),
        endpoint: "e".to_owned(),
        region: "r".to_owned(),
        access_key: "x".to_owned(),
        secret_key: "y".to_owned(),
        path_style: false,
        cdn_domain: None,
    }
}

#[test]
fn ls_plans() {
    let mut profiles = ProfileMap::new();
    profiles.insert("work".to_owned(), profile());
    let sess = Session::new(profiles, None);
    assert_eq!(plan_ls(&sess, ExecMode::NonInteractive, None), Ok(LsPlan::ListProfiles));
    assert_eq!(
        plan_ls(&sess, ExecMode::Interactive, None),
        Ok(LsPlan::List { attach: None, path: ".".to_owned() })
    );
    let bare = RemoteSpec::BareLsTarget("work".to_owned());
    assert_eq!(
        plan_ls(&sess, ExecMode::NonInteractive, Some(&bare)),
        Ok(LsPlan::List { attach: Some("work".to_owned()), path: ".".to_owned() })
    );
    let other = RemoteSpec::BareLsTarget("dir".to_owned());
    assert_eq!(
        plan_ls(&sess, ExecMode::NonInteractive, Some(&other)),
        Err(Error::UnknownLsTarget("dir".to_owned()))
    );
    let mut profiles = ProfileMap::new();
    profiles.insert("work".to_owned(), profile());
    let sess = Session::new(profiles, Some("work".to_owned()));
    assert_eq!(
        plan_ls(&sess, ExecMode::NonInteractive, Some(&other)),
        Ok(LsPlan::List { attach: Some("work".to_owned()), path: "dir".to_owned() })
    );
    assert_eq!(
        plan_ls(&sess, ExecMode::NonInteractive, None),
        Ok(LsPlan::List { attach: Some("work".to_owned()), path: ".".to_owned() })
    );
    let path = RemoteSpec::Path("/x".to_owned());
    assert_eq!(
        plan_ls(&sess, ExecMode::NonInteractive, Some(&path)),
        Ok(LsPlan::List { attach: Some("work".to_owned()), path: "/x".to_owned() })
    );
}

#[test]
fn remote_operations_need_a_path_and_a_bucket() {
    let sess = Session::new(ProfileMap::new(), None);
    let path = RemoteSpec::Path("a".to_owned());
    assert_eq!(
        plan_remote_operation(&sess, ExecMode::NonInteractive, &path),
        Err(Error::NoDefaultAttached)
    );
    assert_eq!(
        plan_remote_operation(&sess, ExecMode::Interactive, &path),
        Ok((None, "a".to_owned()))
    );
    let pp = RemoteSpec::ProfilePath { profile: "p".to_owned(), path: "/k".to_owned() };
    assert_eq!(
        plan_remote_operation(&sess, ExecMode::NonInteractive, &pp),
        Ok((Some("p".to_owned()), "/k".to_owned()))
    );
    let bare = RemoteSpec::BareLsTarget("p".to_owned());
    assert_eq!(
        plan_remote_operation(&sess, ExecMode::NonInteractive, &bare),
        Err(Error::ExpectedRemotePath)
    );
    assert_eq!(
        profile_to_attach(&sess, ExecMode::NonInteractive, &bare),
        Err(Error::ProfileRootNotPath)
    );
}

#[test]
fn sorting_strings_and_paths() {
    let v = vec!["b".to_owned(), "a".to_owned(), "b".to_owned()];
    assert_eq!(sort_strings(v.clone()), vec!["a".to_owned(), "b".to_owned(), "b".to_owned()]);
    assert_eq!(sorted_unique(v), vec!["a".to_owned(), "b".to_owned()]);
    let paths = vec!["d/a.b".to_owned(), "d/a/b".to_owned(), "d/ab".to_owned()];
    assert_eq!(
        sort_paths(paths),
        vec!["d/a/b".to_owned(), "d/a.b".to_owned(), "d/ab".to_owned()]
    );
}

#[test]
fn parse_u64_reads_what_display_writes() {
    for n in [0u64, 7, 10, 12345, u64::MAX] {
        assert_eq!(parse_u64(&n.to_string()), Some(n));
    }
    assert_eq!(parse_u64(""), None);
    assert_eq!(parse_u64("+"), None);
    assert_eq!(parse_u64("-1"), None);
    assert_eq!(parse_u64("1 "), None);
}
