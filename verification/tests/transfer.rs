use bucketctl::command::exec::{finish_transfer, remote_path_from_spec};
use bucketctl::command::transfer::{
    compute_get_local_path, finish_recursive, join_key_prefix, last_path_segment, plan_get_keys,
    relative_key_from_prefix, relative_local_path, resolve_get_recursive_layout,
    resolve_put_recursive_prefix, transfer_summary, GetRecursiveLayout, ItemOutcome,
    TransferReport,
};
use bucketctl::command::types::{ExecMode, ExecOutcome, RemoteSpec};
use bucketctl::config::ProfileMap;
use bucketctl::error::Error;
use bucketctl::session::Session;

#[test]
fn join_key_prefix_joins_relative_paths() {
    assert_eq!(join_key_prefix("foo", "a/b.txt"), "foo/a/b.txt");
    assert_eq!(join_key_prefix("foo/", "a/b.txt"), "foo/a/b.txt");
    assert_eq!(join_key_prefix("", "a/b.txt"), "a/b.txt");
}

#[test]
fn join_key_prefix_with_empty_relative_keeps_prefix() {
    assert_eq!(join_key_prefix("foo//", "/"), "foo");
    assert_eq!(join_key_prefix("foo", "//x"), "foo/x");
}

#[test]
fn resolve_put_prefix_omitted_uses_basename() {
    let session = Session::new(ProfileMap::new(), None);
    let prefix = resolve_put_recursive_prefix(&session, "/tmp/work/foo", true, None, false).unwrap();
    assert_eq!(prefix, "foo");
}

#[test]
fn resolve_put_prefix_rename_style_for_new_remote_dir() {
    let session = Session::new(ProfileMap::new(), None);
    let prefix =
        resolve_put_recursive_prefix(&session, "/tmp/work/foo-rename", true, Some("bar"), false)
            .unwrap();
    assert_eq!(prefix, "bar");
}

#[test]
fn resolve_put_prefix_places_basename_under_existing_dir() {
    let session = Session::new(ProfileMap::new(), None);
    let prefix =
        resolve_put_recursive_prefix(&session, "/tmp/work/foo-existing", true, Some("bar"), true)
            .unwrap();
    assert_eq!(prefix, "bar/foo-existing");
}

#[test]
fn resolve_put_prefix_trailing_slash_places_basename() {
    let session = Session::new(ProfileMap::new(), None);
    let prefix =
        resolve_put_recursive_prefix(&session, "/tmp/work/foo-trailing", true, Some("bar/"), false)
            .unwrap();
    assert_eq!(prefix, "bar/foo-trailing");
}

#[test]
fn resolve_put_prefix_errors() {
    let session = Session::new(ProfileMap::new(), None);
    assert_eq!(
        resolve_put_recursive_prefix(&session, "/tmp/file.txt", false, None, false),
        Err(Error::NotLocalDirectory("/tmp/file.txt".to_owned()))
    );
    assert_eq!(
        resolve_put_recursive_prefix(&session, "/", true, None, false),
        Err(Error::LocalDirNoName)
    );
    assert_eq!(
        resolve_put_recursive_prefix(&session, "/tmp/d", true, Some("../x"), false),
        Err(Error::PathEscapesRoot)
    );
    assert_eq!(
        resolve_put_recursive_prefix(&session, "/tmp/d", true, Some("."), true),
        Ok("d".to_owned())
    );
}

#[test]
fn get_layout_defaults_to_last_segment() {
    let layout = resolve_get_recursive_layout("photos/sub", None, false).unwrap();
    assert_eq!(layout.local_root, "sub");
    assert!(!layout.rename_style);
}

#[test]
fn get_layout_rejects_bucket_root_without_local() {
    assert!(resolve_get_recursive_layout("", None, false).is_err());
    assert!(resolve_get_recursive_layout("/", None, false).is_err());
}

#[test]
fn get_layout_existing_dir_includes_last_segment() {
    let layout = resolve_get_recursive_layout("photos", Some("/tmp/get-layout-existing"), true).unwrap();
    assert_eq!(layout.local_root, "/tmp/get-layout-existing/photos");
    assert!(!layout.rename_style);
}

#[test]
fn get_layout_rename_style_for_new_local_path() {
    let layout = resolve_get_recursive_layout("photos", Some("./out"), false).unwrap();
    assert_eq!(layout.local_root, "./out");
    assert!(layout.rename_style);
}

#[test]
fn get_layout_dot_and_trailing_slash() {
    let layout = resolve_get_recursive_layout("a/photos", Some("."), false).unwrap();
    assert_eq!(layout.local_root, "photos");
    let layout = resolve_get_recursive_layout("", Some("."), false).unwrap();
    assert_eq!(layout.local_root, ".");
    let layout = resolve_get_recursive_layout("photos", Some("out/"), false).unwrap();
    assert_eq!(layout.local_root, "out/photos");
    assert!(!layout.rename_style);
    let layout = resolve_get_recursive_layout("/", Some("./backup"), false).unwrap();
    assert_eq!(layout.local_root, "./backup");
    assert!(!layout.rename_style);
    assert_eq!(
        resolve_get_recursive_layout("", None, false),
        Err(Error::BucketRootNeedsLocal)
    );
}

#[test]
fn relative_key_strips_prefix_and_skips_markers() {
    assert_eq!(
        relative_key_from_prefix("photos", "photos/a.txt").as_deref(),
        Some("a.txt")
    );
    assert!(relative_key_from_prefix("photos", "photos/").is_none());
}

#[test]
fn relative_key_edge_cases() {
    assert_eq!(relative_key_from_prefix("", "/a/b").as_deref(), Some("a/b"));
    assert_eq!(relative_key_from_prefix("photos", "photos").as_deref(), None);
    assert_eq!(relative_key_from_prefix("photos", "other/a").as_deref(), None);
    assert_eq!(relative_key_from_prefix("/photos/", "photos/x/y").as_deref(), Some("x/y"));
}

#[test]
fn compute_get_local_path_joins_under_root() {
    let layout = GetRecursiveLayout {
        local_root: "photos".to_owned(),
        rename_style: false,
    };
    assert_eq!(compute_get_local_path(&layout, "a/b.txt"), "photos/a/b.txt");
}

#[test]
fn last_path_segment_takes_the_last_name() {
    assert_eq!(last_path_segment("/a/b/c/").as_deref(), Some("c"));
    assert_eq!(last_path_segment("c").as_deref(), Some("c"));
    assert_eq!(last_path_segment("///"), None);
}

#[test]
fn plan_get_keys_sorts_and_dedups() {
    let keys = vec![
        "photos/b.txt".to_owned(),
        "photos/".to_owned(),
        "photos/a.txt".to_owned(),
        "photos/sub/c.txt".to_owned(),
        "photos/a.txt".to_owned(),
    ];
    assert_eq!(
        plan_get_keys("photos", keys),
        vec!["a.txt".to_owned(), "b.txt".to_owned(), "sub/c.txt".to_owned()]
    );
}

#[test]
fn relative_local_path_uses_forward_slashes() {
    assert_eq!(relative_local_path("/data", "/data/a/b.txt"), Ok("a/b.txt".to_owned()));
    assert_eq!(
        relative_local_path("/data", "/other/b.txt"),
        Err(Error::NotUnder("/other/b.txt".to_owned(), "/data".to_owned()))
    );
}

#[test]
fn transfer_report_records_and_summarizes() {
    let mut report = TransferReport::with_skipped(1);
    assert!(report.record("a".to_owned(), ItemOutcome::Done));
    assert!(report.record("b".to_owned(), ItemOutcome::Failed("boom".to_owned())));
    assert!(!report.record("c".to_owned(), ItemOutcome::Interrupted));
    assert_eq!(report.ok, 1);
    assert_eq!(report.failed, vec![("b".to_owned(), "boom".to_owned())]);
    assert_eq!(
        transfer_summary(&report, true),
        "transfer summary: 1 succeeded, 1 skipped, 1 failed, interrupted"
    );
    let empty = TransferReport::default();
    assert_eq!(transfer_summary(&empty, false), "transfer summary: 0 succeeded");
}

#[test]
fn finish_recursive_reports_failures_and_interrupts() {
    let mut report = TransferReport::default();
    assert_eq!(
        finish_recursive(ExecMode::Interactive, &report, false),
        Ok(ExecOutcome::Continue)
    );
    report.failed.push(("k".to_owned(), "m".to_owned()));
    report.failed.push(("l".to_owned(), "m".to_owned()));
    assert_eq!(
        finish_recursive(ExecMode::NonInteractive, &report, false),
        Err(Error::TransfersFailed(2))
    );
    assert_eq!(
        finish_recursive(ExecMode::NonInteractive, &report, true),
        Ok(ExecOutcome::ExitCode(130))
    );
    assert_eq!(
        finish_recursive(ExecMode::Interactive, &report, true),
        Ok(ExecOutcome::Continue)
    );
}

#[test]
fn finish_transfer_passes_on_failures() {
    assert_eq!(
        finish_transfer::<String>(ExecMode::NonInteractive, Ok(()), false),
        Ok(ExecOutcome::Continue)
    );
    assert_eq!(
        finish_transfer(ExecMode::NonInteractive, Err("x".to_owned()), true),
        Ok(ExecOutcome::ExitCode(130))
    );
    assert_eq!(
        finish_transfer(ExecMode::Interactive, Err("x".to_owned()), true),
        Ok(ExecOutcome::Continue)
    );
    assert_eq!(
        finish_transfer(ExecMode::Interactive, Err("x".to_owned()), false),
        Err("x".to_owned())
    );
}

#[test]
fn remote_path_from_spec_takes_the_path() {
    assert_eq!(
        remote_path_from_spec(&RemoteSpec::Path("a".to_owned())).as_deref(),
        Some("a")
    );
    assert_eq!(
        remote_path_from_spec(&RemoteSpec::ProfilePath {
            profile: "p".to_owned(),
            path: "/b".to_owned()
        })
        .as_deref(),
        Some("/b")
    );
    assert_eq!(remote_path_from_spec(&RemoteSpec::BareLsTarget("p".to_owned())), None);
}
