use bucketctl::command::print::{help_lines, listing_line, profiles_line};
use bucketctl::command::types::ExecMode;
use bucketctl::s3::listing::RemoteEntry;
use bucketctl::ui::{
    colorize_prompt, is_archive_name, status_cancelled, status_done, status_downloading,
    status_label, status_uploading, stdout_dir, stdout_dir_label, stdout_file, stdout_profile,
    stdout_size, stdout_time,
};

#[test]
fn prompt_colors() {
    assert_eq!(colorize_prompt("bucketctl> ", false), "bucketctl> ");
    assert_eq!(
        colorize_prompt("bucketctl> ", true),
        "\x1b[36mbucketctl\x1b[39m\x1b[2m> \x1b[0m"
    );
    assert_eq!(
        colorize_prompt("work:/a/> ", true),
        "\x1b[36mwork\x1b[39m:\x1b[34m/a/\x1b[39m\x1b[2m> \x1b[0m"
    );
    assert_eq!(
        colorize_prompt("work> ", true),
        "\x1b[36mwork\x1b[39m\x1b[2m> \x1b[0m"
    );
    assert_eq!(colorize_prompt("odd", true), "odd");
}

#[test]
fn status_labels_are_right_aligned() {
    assert_eq!(status_done(false), "       Done");
    assert_eq!(status_done(true), "\x1b[1m\x1b[32m       Done\x1b[39m\x1b[0m");
    assert_eq!(status_cancelled(false), "  Cancelled");
    assert_eq!(status_cancelled(true), "\x1b[1m\x1b[33m  Cancelled\x1b[39m\x1b[0m");
    assert_eq!(status_uploading(false), "  Uploading");
    assert_eq!(status_downloading(false), "Downloading");
    assert_eq!(status_downloading(true), "\x1b[1m\x1b[36mDownloading\x1b[39m\x1b[0m");
    assert_eq!(status_label("x", true, "colored".to_owned()), "colored");
    assert_eq!(status_label("x", false, "colored".to_owned()), "          x");
}

#[test]
fn listing_columns() {
    assert_eq!(stdout_dir("d/", false), "d/");
    assert_eq!(stdout_dir("d/", true), "\x1b[34md/\x1b[39m");
    assert_eq!(stdout_dir_label("DIR", false), "       DIR");
    assert_eq!(stdout_dir_label("DIR", true), "\x1b[1m\x1b[34m       DIR\x1b[39m\x1b[0m");
    assert_eq!(stdout_size("1 KiB", false), "     1 KiB");
    assert_eq!(stdout_size("1 KiB", true), "\x1b[2m     1 KiB\x1b[0m");
    assert_eq!(stdout_time("Jan 1", false), "Jan 1       ");
    assert_eq!(stdout_time("Jan 1", true), "\x1b[2mJan 1       \x1b[0m");
    assert_eq!(stdout_file("a.TAR.GZ", true), "\x1b[35ma.TAR.GZ\x1b[39m");
    assert_eq!(stdout_file("a.TAR.GZ", false), "a.TAR.GZ");
    assert_eq!(stdout_file("a.txt", true), "a.txt");
    assert_eq!(stdout_profile("p", true), "\x1b[36mp\x1b[39m");
    assert_eq!(stdout_profile("p", false), "p");
}

#[test]
fn archive_names() {
    assert!(is_archive_name("x.zip"));
    assert!(is_archive_name("X.7Z"));
    assert!(is_archive_name("a.tar.zst"));
    assert!(!is_archive_name("zip"));
    assert!(!is_archive_name("a.zipx"));
}

#[test]
fn listing_lines() {
    let dir = RemoteEntry { name: "d".to_owned(), is_dir: true, size: None, modified: None };
    assert_eq!(listing_line(&dir, "", false), "       DIR                d/");
    let dir = RemoteEntry { name: "d".to_owned(), is_dir: true, size: None, modified: Some("Jan 1".to_owned()) };
    assert_eq!(listing_line(&dir, "", false), "       DIR  Jan 1         d/");
    let file = RemoteEntry { name: "f".to_owned(), is_dir: false, size: Some(3), modified: Some("Jan 2".to_owned()) };
    assert_eq!(listing_line(&file, "3 B", false), "       3 B  Jan 2         f");
    let file = RemoteEntry { name: "f".to_owned(), is_dir: false, size: Some(3), modified: None };
    assert_eq!(listing_line(&file, "3 B", false), "       3 B  f");
    let file = RemoteEntry { name: "f".to_owned(), is_dir: false, size: None, modified: None };
    assert_eq!(listing_line(&file, "ignored", false), "f");
    assert_eq!(
        profiles_line(&vec!["a".to_owned(), "b".to_owned()], false),
        "a  b"
    );
    assert_eq!(profiles_line(&Vec::new(), true), "");
}

#[test]
fn help_lists_commands_by_mode() {
    let lines = help_lines(ExecMode::Interactive);
    assert_eq!(lines.len(), 12);
    assert_eq!(lines[0], "ls [path]");
    assert_eq!(lines[11], "exit");
    let lines = help_lines(ExecMode::NonInteractive);
    assert_eq!(lines.len(), 7);
    assert_eq!(lines[6], "!<local command>");
}
