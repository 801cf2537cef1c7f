use bucketctl::cdn::{
    cdn_response_step, content_length, content_range_total, http_error_message, CdnBackend,
    CdnDownload,
};
use bucketctl::config::ProfileConfig;
use bucketctl::error::Error;

fn backend(domain: &str) -> CdnBackend {
    CdnBackend { base: domain.to_owned() }
}

#[test]
fn object_url_joins_key_segments() {
    let cdn = backend("https://cdn.example.com/");
    assert_eq!(
        cdn.object_url("photos/a b.txt").unwrap().as_str(),
        "https://cdn.example.com/photos/a%20b.txt"
    );
    assert_eq!(
        cdn.object_url("/photos/a.txt").unwrap().as_str(),
        "https://cdn.example.com/photos/a.txt"
    );
}

#[test]
fn object_url_keeps_domain_path_prefix() {
    let cdn = backend("https://cdn.example.com/prefix/");
    assert_eq!(
        cdn.object_url("a.txt").unwrap().as_str(),
        "https://cdn.example.com/prefix/a.txt"
    );
}

#[test]
fn object_url_encodes_special_chars() {
    let cdn = backend("https://cdn.example.com/");
    assert_eq!(
        cdn.object_url("a?b#c.txt").unwrap().as_str(),
        "https://cdn.example.com/a%3Fb%23c.txt"
    );
}

#[test]
fn from_profile_validates_scheme() {
    let profile = ProfileConfig {
        bucket: "b".to_owned(),
        endpoint: "https://s3.example.com".to_owned(),
        region: "auto".to_owned(),
        access_key: "x".to_owned(),
        secret_key: "y".to_owned(),
        path_style: false,
        cdn_domain: Some("cdn.example.com".to_owned()),
    };
    assert!(CdnBackend::from_profile(&profile).is_err());

    let profile = ProfileConfig {
        cdn_domain: Some(" https://cdn.example.com/ ".to_owned()),
        ..profile
    };
    let cdn = CdnBackend::from_profile(&profile).unwrap().unwrap();
    assert_eq!(
        cdn.object_url("a.txt").unwrap().as_str(),
        "https://cdn.example.com/a.txt"
    );
}

#[test]
fn from_profile_without_domain_and_with_bad_urls() {
    let profile = ProfileConfig {
        bucket: "b".to_owned(),
        endpoint: "e".to_owned(),
        region: "r".to_owned(),
        access_key: "x".to_owned(),
        secret_key: "y".to_owned(),
        path_style: true,
        cdn_domain: None,
    };
    assert_eq!(CdnBackend::from_profile(&profile), Ok(None));
    let bad = ProfileConfig {
        cdn_domain: Some("ftp://x".to_owned()),
        ..profile.clone()
    };
    assert_eq!(CdnBackend::from_profile(&bad), Err(Error::CdnScheme("ftp://x".to_owned())));
    let bad = ProfileConfig {
        cdn_domain: Some("http://exa mple.com".to_owned()),
        ..profile
    };
    assert_eq!(
        CdnBackend::from_profile(&bad),
        Err(Error::InvalidCdnDomain("http://exa mple.com".to_owned()))
    );
}

#[test]
fn headers_give_sizes() {
    assert_eq!(content_length(Some("123")), Some(123));
    assert_eq!(content_length(Some("+7")), Some(7));
    assert_eq!(content_length(Some("x")), None);
    assert_eq!(content_length(Some("18446744073709551616")), None);
    assert_eq!(content_length(None), None);
    assert_eq!(content_range_total(Some("bytes 0-9/100")), Some(100));
    assert_eq!(content_range_total(Some("bytes */55")), Some(55));
    assert_eq!(content_range_total(Some("bytes 0-9/*")), None);
}

#[test]
fn cdn_answers_decide_the_download() {
    assert_eq!(
        cdn_response_step("k", "p", 200, 5, None, Some(10)),
        Ok(CdnDownload::Write { resume_from: 0, total: Some(10) })
    );
    assert_eq!(
        cdn_response_step("k", "p", 206, 5, None, Some(10)),
        Ok(CdnDownload::Write { resume_from: 5, total: Some(15) })
    );
    assert_eq!(
        cdn_response_step("k", "p", 206, 5, Some(20), Some(10)),
        Ok(CdnDownload::Write { resume_from: 5, total: Some(20) })
    );
    assert_eq!(
        cdn_response_step("k", "p", 416, 20, Some(20), None),
        Ok(CdnDownload::Complete { total: 20 })
    );
    assert_eq!(
        cdn_response_step("k", "p", 416, 21, Some(20), None),
        Err(Error::PartialTooLarge("p".to_owned()))
    );
    assert_eq!(
        cdn_response_step("k", "p", 416, 2, None, None),
        Err(Error::CdnRangeNotSatisfiable("k".to_owned()))
    );
    assert_eq!(cdn_response_step("k", "p", 404, 0, None, None), Err(Error::RemoteNotFound("k".to_owned())));
    assert_eq!(cdn_response_step("k", "p", 403, 0, None, None), Err(Error::CdnForbidden("k".to_owned())));
    assert_eq!(cdn_response_step("k", "p", 500, 0, None, None), Err(Error::CdnStatus("k".to_owned(), 500)));
}

#[test]
fn http_error_messages_name_the_host() {
    assert_eq!(http_error_message(Some("h"), true, false, "d"), "failed to connect to h");
    assert_eq!(http_error_message(Some("h"), false, true, "d"), "request to h timed out");
    assert_eq!(http_error_message(None, false, false, "d"), "cdn request to cdn failed: d");
}

#[test]
fn from_profile_keeps_the_parsed_base_url() {
    let profile = ProfileConfig {
        bucket: "b".to_owned(),
        endpoint: "e".to_owned(),
        region: "r".to_owned(),
        access_key: "x".to_owned(),
        secret_key: "y".to_owned(),
        path_style: false,
        cdn_domain: Some("https://CDN.Example.COM:443//".to_owned()),
    };
    let cdn = CdnBackend::from_profile(&profile).unwrap().unwrap();
    assert_eq!(cdn.base, "https://cdn.example.com/");
    assert_eq!(cdn.object_url("a/../b").unwrap(), "https://cdn.example.com/a/b");
}
