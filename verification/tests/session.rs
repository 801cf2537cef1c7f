use bucketctl::command::parse::expand_tilde;
use bucketctl::config::{ProfileConfig, ProfileMap};
use bucketctl::error::Error;
use bucketctl::session::{resolve_remote_path, Session};

fn profile(bucket: &str) -> ProfileConfig {
    ProfileConfig {
        bucket: bucket.to_owned(),
        endpoint: "https://s3.example.com".to_owned(),
        region: "auto".to_owned(),
        access_key: "x".to_owned(),
        secret_key: "y".to_owned(),
        path_style: false,
        cdn_domain: None,
    }
}

#[test]
fn resolve_remote_path_absolute_and_relative() {
    assert_eq!(resolve_remote_path("", "foo").unwrap(), "foo");
    assert_eq!(resolve_remote_path("a/b/", "c").unwrap(), "a/b/c");
    assert_eq!(resolve_remote_path("a", "/x").unwrap(), "x");
    assert_eq!(resolve_remote_path("a/b", "..").unwrap(), "a");
    assert_eq!(resolve_remote_path("", ".").unwrap(), "");
}

#[test]
fn resolve_remote_path_rejects_escape() {
    assert!(resolve_remote_path("", "..").is_err());
}

#[test]
fn resolve_remote_path_collapses_dots_and_slashes() {
    assert_eq!(resolve_remote_path("a/", "./b//c/../d/"), Ok("a/b/d".to_owned()));
    assert_eq!(resolve_remote_path("a/b/", "../../.."), Err(Error::PathEscapesRoot));
    assert_eq!(resolve_remote_path("x/", "/a/b"), resolve_remote_path("y/z/", "/a/b"));
}

#[test]
fn expand_tilde_home_and_prefix() {
    let home = "/home/ann";
    assert_eq!(expand_tilde("~", Some(home)), home);
    assert_eq!(expand_tilde("~/Downloads", Some(home)), format!("{home}/Downloads"));
    assert_eq!(expand_tilde("/tmp/x", Some(home)), "/tmp/x");
    assert_eq!(expand_tilde("~other", Some(home)), "~other");
    assert_eq!(expand_tilde("~/x", None), "~/x");
}

#[test]
fn resolve_download_target_expands_tilde() {
    let home = "/home/ann";
    let target =
        Session::resolve_download_target("path/file.txt", Some("~/out"), Some(home), false).unwrap();
    assert_eq!(target, format!("{home}/out"));
}

#[test]
fn resolve_download_target_dir_joins_filename() {
    let target =
        Session::resolve_download_target("remote/obj.txt", Some("/tmp"), None, true).unwrap();
    assert_eq!(target, "/tmp/obj.txt");
    assert_eq!(
        Session::resolve_download_target("remote/obj.txt", None, None, false),
        Ok("obj.txt".to_owned())
    );
    assert_eq!(
        Session::resolve_download_target("remote/..", None, None, false),
        Err(Error::RemoteNoObjectName)
    );
}

#[test]
fn resolve_upload_target_defaults_to_basename() {
    let sess = Session::new(ProfileMap::new(), None);
    assert_eq!(sess.resolve_upload_target("/tmp/hello.txt", None).unwrap(), "hello.txt");
}

#[test]
fn resolve_upload_targets_under_directories() {
    let mut sess = Session::new(ProfileMap::new(), None);
    sess.attach_profile("p".to_owned(), "b".to_owned());
    assert_eq!(sess.change_dir("docs"), Ok("/docs".to_owned()));
    assert_eq!(sess.resolve_upload_target("/tmp/a.txt", Some("in/")), Ok("docs/in/a.txt".to_owned()));
    assert_eq!(sess.resolve_upload_target("/tmp/a.txt", Some("new.txt")), Ok("docs/new.txt".to_owned()));
    assert_eq!(sess.resolve_upload_target_in_dir("/tmp/a.txt", "dir//"), Ok("docs/dir/a.txt".to_owned()));
    assert_eq!(sess.resolve_upload_target("/", None), Err(Error::LocalNoFileName));
}

#[test]
fn prompt_and_location_follow_the_session() {
    let mut profiles = ProfileMap::new();
    profiles.insert("work".to_owned(), profile("bkt"));
    let mut sess = Session::new(profiles, Some("work".to_owned()));
    assert_eq!(sess.prompt(), "bucketctl> ");
    assert_eq!(sess.location_display(), "/");
    assert_eq!(sess.selected_bucket(), Err(Error::NoProfileAttached));
    sess.attach_profile("work".to_owned(), "bkt".to_owned());
    assert_eq!(sess.prompt(), "work:/> ");
    assert_eq!(sess.change_dir("a/b/"), Ok("/a/b".to_owned()));
    assert_eq!(sess.prompt(), "work:/a/b/> ");
    assert_eq!(sess.location_display(), "work:/a/b");
    assert_eq!(sess.cwd_display(), "/a/b");
    assert_eq!(sess.change_dir(".."), Ok("/a".to_owned()));
    assert_eq!(sess.change_dir("../.."), Err(Error::PathEscapesRoot));
    assert_eq!(sess.cwd, "a/");
    assert_eq!(sess.selected_bucket(), Ok("bkt"));
    assert!(sess.has_profile("work"));
    assert!(!sess.has_profile("home"));
    assert_eq!(sess.list_profiles(), vec!["work".to_owned()]);
    assert_eq!(sess.default_profile_name(), Some("work"));
    assert_eq!(sess.profile_config("home").unwrap_err(), Error::ProfileNotFound("home".to_owned()));
    sess.attach_profile("work".to_owned(), "bkt".to_owned());
    assert_eq!(sess.cwd, "");
}

#[test]
fn cd_then_dot_stays_put() {
    let mut sess = Session::new(ProfileMap::new(), None);
    sess.attach_profile("p".to_owned(), "b".to_owned());
    sess.change_dir("x/y").unwrap();
    assert_eq!(sess.resolve_remote("."), Ok("x/y".to_owned()));
}
