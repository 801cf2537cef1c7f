use bucketctl::completion::{
    completion_start, local_candidates, plan_completion, remote_candidates, split_local_completion,
    split_remote_completion, split_whitespace_words, CompletionPlan,
};
use bucketctl::s3::listing::RemoteEntry;
use bucketctl::shell_complete::{bash_script, completion_script, fish_script, zsh_script};
use bucketctl::error::Error;

#[test]
fn split_remote_word() {
    assert_eq!(
        split_remote_completion("a/b/c"),
        ("a/b".to_owned(), "c".to_owned(), "a/b/".to_owned())
    );
    assert_eq!(
        split_remote_completion("/x"),
        ("".to_owned(), "x".to_owned(), "/".to_owned())
    );
    assert_eq!(
        split_remote_completion("plain"),
        ("".to_owned(), "plain".to_owned(), "".to_owned())
    );
}

#[test]
fn split_local_word() {
    assert_eq!(split_local_completion("dir/"), ("dir".to_owned(), "".to_owned()));
    assert_eq!(split_local_completion("a/b"), ("a".to_owned(), "b".to_owned()));
    assert_eq!(split_local_completion("b"), (".".to_owned(), "b".to_owned()));
    assert_eq!(split_local_completion(""), (".".to_owned(), "".to_owned()));
}

#[test]
fn remote_and_local_candidates() {
    let entries = vec![
        RemoteEntry { name: "docs".to_owned(), is_dir: true, size: None, modified: None },
        RemoteEntry { name: "dog.txt".to_owned(), is_dir: false, size: Some(1), modified: None },
        RemoteEntry { name: "cat".to_owned(), is_dir: false, size: Some(1), modified: None },
    ];
    assert_eq!(
        remote_candidates(&entries, "do", "a/", false),
        vec!["a/docs/".to_owned(), "a/dog.txt".to_owned()]
    );
    assert_eq!(remote_candidates(&entries, "do", "", true), vec!["docs/".to_owned()]);
    let local = vec![
        ("zeta".to_owned(), false),
        ("alpha".to_owned(), true),
        ("also".to_owned(), false),
        ("beta".to_owned(), false),
    ];
    assert_eq!(
        local_candidates(&local, "a"),
        vec!["alpha/".to_owned(), "also".to_owned()]
    );
}

#[test]
fn completion_plans() {
    assert_eq!(
        plan_completion("!ls do"),
        Some(CompletionPlan::Local { word: "ls do".to_owned(), offset: 1 })
    );
    assert_eq!(
        plan_completion("p"),
        Some(CompletionPlan::Fixed { start: 0, candidates: vec!["pwd".to_owned(), "put".to_owned()] })
    );
    assert_eq!(
        plan_completion(""),
        Some(CompletionPlan::Fixed { start: 0, candidates: Vec::new() })
    );
    assert_eq!(
        plan_completion("cd do"),
        Some(CompletionPlan::Remote { word: "do".to_owned(), dirs_only: true, offset: 3 })
    );
    assert_eq!(
        plan_completion("get "),
        Some(CompletionPlan::Remote { word: "".to_owned(), dirs_only: false, offset: 4 })
    );
    assert_eq!(
        plan_completion("put ./a"),
        Some(CompletionPlan::Local { word: "./a".to_owned(), offset: 4 })
    );
    assert_eq!(
        plan_completion("put ./a r"),
        Some(CompletionPlan::Remote { word: "r".to_owned(), dirs_only: false, offset: 8 })
    );
    assert_eq!(
        plan_completion("pwd x"),
        Some(CompletionPlan::Fixed { start: 8, candidates: Vec::new() })
    );
    assert_eq!(
        plan_completion("get 'unbalanced"),
        Some(CompletionPlan::Remote { word: "'unbalanced".to_owned(), dirs_only: false, offset: 4 })
    );
}

#[test]
fn whitespace_words() {
    assert_eq!(
        split_whitespace_words("  a b\tc  "),
        vec!["a".to_owned(), "b".to_owned(), "c".to_owned()]
    );
    assert!(split_whitespace_words("   ").is_empty());
}

#[test]
fn completion_scripts() {
    let profiles = vec!["work".to_owned(), "home".to_owned()];
    let bash = bash_script(&profiles);
    assert!(bash.starts_with("_bucketctl_completion() {\n"));
    assert!(bash.contains("local commands=\"help ls cd pwd mkdir put get rm exit completion config\"\n"));
    assert!(bash.contains("local profiles=(\"work\" \"home\")\n"));
    assert!(bash.ends_with("complete -F _bucketctl_completion bucketctl bkt\n"));
    let zsh = zsh_script(&profiles);
    assert!(zsh.starts_with("#compdef bucketctl bkt\n"));
    assert!(zsh.contains("profiles=('work' 'home')\n"));
    let fish = fish_script(&profiles);
    assert!(fish.starts_with("complete -c bucketctl -c bkt\ncomplete -c bucketctl -c bkt -n '__fish_use_subcommand' -a 'help'\n"));
    assert!(fish.contains("-a 'home'\ncomplete -c bucketctl -c bkt -n '__fish_seen_subcommand_from ls mkdir put get rm cd' -f\n"));
    assert_eq!(completion_script("bash", &profiles), Ok(bash));
    assert_eq!(completion_script("pwsh", &profiles), Err(Error::UnsupportedShell("pwsh".to_owned())));
}

#[test]
fn completion_start_counts_bytes() {
    assert_eq!(completion_start("a/bc", "bc"), 2);
    assert_eq!(completion_start("é/x", "x"), 3);
    assert_eq!(completion_start("ab", ""), 2);
    assert_eq!(completion_start("a", "abc"), 0);
}
