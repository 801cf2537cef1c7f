use bucketctl::s3::deletion::{delete_batches, keys_for_delete};
use bucketctl::s3::download::{download_part_path, object_size, plan_download, range_header, DownloadStep};
use bucketctl::s3::errors::{
    download_interrupted_message, s3_error_message, upload_interrupted_message, S3Failure,
};
use bucketctl::s3::keys::{normalize_dir_key, normalize_key, normalize_prefix};
use bucketctl::s3::listing::{
    dir_marker_metadata, merge_remote_entries, more_pages, object_name, prefix_name,
    ListedObject, ListingAccumulator, RemoteEntry,
};
use bucketctl::s3::multipart::{
    effective_part_size, part_plan, sort_completed_parts, CompletedPartInfo, MAX_PARTS,
    MIN_NON_LAST_PART_SIZE, PART_SIZE,
};
use bucketctl::s3::upload::{uses_multipart, LoopStep, PartScheduler};
use bucketctl::error::Error;

#[test]
fn normalize_prefix_adds_trailing_slash() {
    assert_eq!(normalize_prefix("photos"), "photos/");
    assert_eq!(normalize_prefix("/photos/"), "photos/");
    assert_eq!(normalize_prefix(""), "");
}

#[test]
fn normalize_key_strips_leading_slash() {
    assert_eq!(normalize_key("/foo/bar"), "foo/bar");
    assert_eq!(normalize_key("foo"), "foo");
}

#[test]
fn normalize_dir_key_ensures_trailing_slash() {
    assert_eq!(normalize_dir_key("foo"), "foo/");
    assert_eq!(normalize_dir_key("foo/"), "foo/");
    assert_eq!(normalize_dir_key(""), "");
}

#[test]
fn normalizing_twice_changes_nothing() {
    for p in ["", "/", "a", "/a//", "a/b/"] {
        assert_eq!(normalize_prefix(&normalize_prefix(p)), normalize_prefix(p));
        assert_eq!(normalize_key(&normalize_key(p)), normalize_key(p));
        assert_eq!(normalize_dir_key(&normalize_dir_key(p)), normalize_dir_key(p));
    }
}

#[test]
fn merge_remote_entries_sorts_dirs_first() {
    let dir_markers = vec![("b".to_owned(), "Jan 1".to_owned())];
    let dir_names = vec!["a".to_owned(), "b".to_owned()];
    let files = vec![RemoteEntry {
        name: "c.txt".to_owned(),
        is_dir: false,
        size: Some(1),
        modified: None,
    }];
    let entries = merge_remote_entries(dir_markers, dir_names, files);
    assert_eq!(entries.len(), 3);
    assert!(entries[0].is_dir);
    assert!(entries[1].is_dir);
    assert_eq!(entries[0].name, "a");
    assert_eq!(entries[1].name, "b");
    assert_eq!(entries[1].modified.as_deref(), Some("Jan 1"));
    assert_eq!(entries[2].name, "c.txt");
}

#[test]
fn merge_remote_entries_keeps_files_with_equal_names_in_order() {
    let files = vec![
        RemoteEntry { name: "z".to_owned(), is_dir: false, size: Some(2), modified: None },
        RemoteEntry { name: "y".to_owned(), is_dir: false, size: Some(1), modified: None },
        RemoteEntry { name: "z".to_owned(), is_dir: false, size: Some(3), modified: None },
    ];
    let markers = vec![("d".to_owned(), "old".to_owned()), ("d".to_owned(), "new".to_owned())];
    let entries = merge_remote_entries(markers, vec!["d".to_owned()], files);
    let names: Vec<&str> = entries.iter().map(|e| e.name.as_str()).collect();
    assert_eq!(names, vec!["d", "y", "z", "z"]);
    assert_eq!(entries[0].modified.as_deref(), Some("new"));
    assert_eq!(entries[2].size, Some(2));
    assert_eq!(entries[3].size, Some(3));
}

#[test]
fn listing_names_under_a_base() {
    assert_eq!(prefix_name(Some("photos/2024/"), "photos/").as_deref(), Some("2024"));
    assert_eq!(prefix_name(Some("photos/"), "photos/"), None);
    assert_eq!(object_name(Some("photos/a.jpg"), "photos/").as_deref(), Some("a.jpg"));
    assert_eq!(object_name(Some("photos/"), "photos/"), None);
    assert_eq!(object_name(Some("photos/x/a.jpg"), "photos/"), None);
    assert_eq!(
        dir_marker_metadata(Some("photos/x/"), "photos/", Some("Jan 1")),
        Some(("x".to_owned(), "Jan 1".to_owned()))
    );
    assert_eq!(dir_marker_metadata(Some("photos/x/"), "photos/", None), None);
    assert_eq!(dir_marker_metadata(Some("photos/a.jpg"), "photos/", Some("t")), None);
}

#[test]
fn listing_accumulator_collects_pages() {
    let mut acc = ListingAccumulator::new();
    let objects = vec![
        ListedObject { key: Some("p/".to_owned()), size: Some(0), modified: Some("t0".to_owned()) },
        ListedObject { key: Some("p/sub/".to_owned()), size: Some(0), modified: Some("t1".to_owned()) },
        ListedObject { key: Some("p/f.txt".to_owned()), size: Some(5), modified: Some("t2".to_owned()) },
    ];
    let prefixes = vec![Some("p/sub/".to_owned()), Some("p/other/".to_owned())];
    acc.absorb_page("p/", &objects, &prefixes);
    acc.absorb_page("p/", &Vec::new(), &vec![Some("p/sub/".to_owned())]);
    let entries = acc.finish();
    let names: Vec<&str> = entries.iter().map(|e| e.name.as_str()).collect();
    assert_eq!(names, vec!["other", "sub", "f.txt"]);
    assert_eq!(entries[1].modified.as_deref(), Some("t1"));
    assert_eq!(entries[2].size, Some(5));
}

#[test]
fn more_pages_follows_truncation_and_page_limit() {
    assert!(more_pages(Some(true), 1, None));
    assert!(!more_pages(Some(false), 1, None));
    assert!(!more_pages(None, 1, None));
    assert!(more_pages(Some(true), 1, Some(2)));
    assert!(!more_pages(Some(true), 2, Some(2)));
}

#[test]
fn part_plan_covers_entire_file() {
    let total = PART_SIZE + 1;
    let parts = part_plan(total, PART_SIZE);
    let sum: u64 = parts.iter().map(|(_, _, len)| len).sum();
    assert_eq!(sum, total);
    assert_eq!(parts.len(), 2);
    assert_eq!(parts[0], (1, 0, PART_SIZE));
    assert_eq!(parts[1], (2, PART_SIZE, 1));
}

#[test]
fn part_plan_non_last_parts_meet_minimum_size() {
    let total = PART_SIZE * 3;
    let parts = part_plan(total, PART_SIZE);
    for (idx, (_, _, len)) in parts.iter().enumerate() {
        if idx + 1 < parts.len() {
            assert!(*len >= MIN_NON_LAST_PART_SIZE);
        }
    }
}

#[test]
fn part_plan_respects_max_part_count() {
    let total = PART_SIZE * (MAX_PARTS + 10);
    let parts = part_plan(total, PART_SIZE);
    assert!(parts.len() <= MAX_PARTS as usize);
    let sum: u64 = parts.iter().map(|(_, _, len)| len).sum();
    assert_eq!(sum, total);
}

#[test]
fn effective_part_size_rounds_up_to_mebibytes() {
    assert_eq!(effective_part_size(10, PART_SIZE), PART_SIZE);
    assert_eq!(effective_part_size(10, 1), MIN_NON_LAST_PART_SIZE);
    assert_eq!(effective_part_size(PART_SIZE * (MAX_PARTS + 10), PART_SIZE), 9 * 1024 * 1024);
    assert!(part_plan(0, PART_SIZE).is_empty());
}

#[test]
fn effective_part_size_takes_the_largest_whole_mebibyte_size() {
    let largest = u64::MAX - 1024 * 1024 + 1;
    assert_eq!(effective_part_size(10, largest), largest);
    assert_eq!(effective_part_size(10, largest - 5), largest);
    let parts = part_plan(10, largest);
    assert_eq!(parts, vec![(1, 0, 10)]);
}

#[test]
fn map_s3_err_dispatch_failure_mentions_endpoint() {
    let mapped = s3_error_message(
        S3Failure::Dispatch,
        "my-bucket",
        Some("key"),
        "https://s3.example.com",
        "dispatch failure",
    );
    assert_eq!(mapped, "failed to connect to https://s3.example.com");
}

#[test]
fn s3_error_messages_by_status() {
    assert_eq!(
        s3_error_message(S3Failure::Service(404), "b", Some("k"), "e", "d"),
        "remote object not found: k"
    );
    assert_eq!(
        s3_error_message(S3Failure::Service(404), "b", None, "e", "d"),
        "remote object not found: (unknown)"
    );
    assert_eq!(
        s3_error_message(S3Failure::Service(403), "b", None, "e", "d"),
        "access denied for bucket `b`\u{2014}check keys and endpoint"
    );
    assert_eq!(
        s3_error_message(S3Failure::Service(301), "b", None, "e", "d"),
        "region or endpoint mismatch for bucket `b`\u{2014}check config endpoint/region"
    );
    assert_eq!(s3_error_message(S3Failure::Service(500), "b", None, "e", "d"), "d");
    assert_eq!(s3_error_message(S3Failure::Timeout, "b", None, "e", "d"), "request to e timed out");
    assert_eq!(s3_error_message(S3Failure::Other, "b", None, "e", "d"), "d");
    assert_eq!(upload_interrupted_message("k"), "upload interrupted for `k`");
    assert_eq!(
        download_interrupted_message("a.download"),
        "download interrupted; partial file kept at a.download"
    );
}

#[test]
fn sort_completed_parts_orders_by_part_number() {
    let high = CompletedPartInfo { part_number: Some(3), e_tag: Some("\"c\"".to_owned()) };
    let low = CompletedPartInfo { part_number: Some(1), e_tag: Some("\"a\"".to_owned()) };
    let mid = CompletedPartInfo { part_number: Some(2), e_tag: Some("\"b\"".to_owned()) };
    let mut parts = vec![high, low, mid];
    sort_completed_parts(&mut parts);
    assert_eq!(parts[0].part_number, Some(1));
    assert_eq!(parts[1].part_number, Some(2));
    assert_eq!(parts[2].part_number, Some(3));
}

#[test]
fn sort_completed_parts_puts_unnumbered_first_and_is_stable() {
    let a = CompletedPartInfo { part_number: Some(2), e_tag: Some("a".to_owned()) };
    let b = CompletedPartInfo { part_number: None, e_tag: Some("b".to_owned()) };
    let c = CompletedPartInfo { part_number: Some(2), e_tag: Some("c".to_owned()) };
    let mut parts = vec![a, b, c];
    sort_completed_parts(&mut parts);
    let tags: Vec<&str> = parts.iter().map(|p| p.e_tag.as_deref().unwrap()).collect();
    assert_eq!(tags, vec!["b", "a", "c"]);
}

#[test]
fn keys_for_delete_adds_marker_sorts_and_dedups() {
    let keys = vec!["d/b".to_owned(), "d/a".to_owned(), "d/b".to_owned()];
    assert_eq!(
        keys_for_delete(keys, "/d"),
        vec!["d/".to_owned(), "d/a".to_owned(), "d/b".to_owned()]
    );
    assert_eq!(keys_for_delete(vec!["x".to_owned()], ""), vec!["x".to_owned()]);
    assert!(keys_for_delete(Vec::new(), "").is_empty());
}

#[test]
fn delete_batches_hold_at_most_a_thousand_keys() {
    let keys: Vec<String> = (0..2500).map(|i| format!("k{i}")).collect();
    let batches = delete_batches(&keys);
    assert_eq!(batches.len(), 3);
    assert_eq!(batches[0].len(), 1000);
    assert_eq!(batches[1].len(), 1000);
    assert_eq!(batches[2].len(), 500);
    assert_eq!(batches.concat(), keys);
    assert!(delete_batches(&Vec::new()).is_empty());
}

#[test]
fn download_part_path_sits_beside_the_file() {
    assert_eq!(download_part_path("out/a.txt"), "out/a.txt.download");
    assert_eq!(download_part_path("a.txt"), "a.txt.download");
    assert_eq!(download_part_path("/"), "/.download");
}

#[test]
fn plan_download_resumes_or_completes() {
    assert_eq!(
        plan_download(Some(10), 11, "p"),
        Err(Error::PartialTooLarge("p".to_owned()))
    );
    assert_eq!(plan_download(Some(10), 10, "p"), Ok(DownloadStep::Complete { total: 10 }));
    assert_eq!(
        plan_download(Some(10), 4, "p"),
        Ok(DownloadStep::Fetch { resume_from: 4, range: Some("bytes=4-".to_owned()) })
    );
    assert_eq!(
        plan_download(None, 0, "p"),
        Ok(DownloadStep::Fetch { resume_from: 0, range: None })
    );
    assert_eq!(range_header(1234567), "bytes=1234567-");
    assert_eq!(object_size(Some(-1)), None);
    assert_eq!(object_size(Some(7)), Some(7));
}

#[test]
fn part_scheduler_keeps_four_parts_in_flight() {
    assert!(!uses_multipart(PART_SIZE));
    assert!(uses_multipart(PART_SIZE + 1));
    let mut s = PartScheduler::new(6);
    let mut started = Vec::new();
    while let Some(i) = s.start_next() {
        started.push(i);
    }
    assert_eq!(started, vec![0, 1, 2, 3]);
    assert_eq!(s.step(), LoopStep::Wait);
    s.part_finished();
    assert_eq!(s.start_next(), Some(4));
    assert_eq!(s.start_next(), None);
    for _ in 0..4 {
        s.part_finished();
    }
    assert_eq!(s.step(), LoopStep::Refill);
    assert_eq!(s.start_next(), Some(5));
    s.part_finished();
    assert_eq!(s.step(), LoopStep::Stop);
    assert_eq!(s.outcome(), Ok(true));
}

#[test]
fn part_scheduler_cancel_and_incomplete() {
    let mut s = PartScheduler::new(3);
    assert_eq!(s.start_next(), Some(0));
    s.cancel();
    assert_eq!(s.start_next(), None);
    assert!(!s.done_after_event());
    s.part_finished();
    assert!(s.done_after_event());
    assert_eq!(s.step(), LoopStep::Stop);
    assert_eq!(s.outcome(), Ok(false));
    let t = PartScheduler::new(2);
    assert_eq!(t.outcome(), Err(Error::MultipartIncomplete(2, 0)));
}
