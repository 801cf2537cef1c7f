use bucketctl::config::{
    check_init, config_template, env_reference, resolve_secret, AppConfig, ProfileConfig,
    ProfileMap,
};
use bucketctl::error::{Error, SecretField};

fn profile(bucket: &str, access: &str) -> ProfileConfig {
    ProfileConfig {
        bucket: bucket.to_owned(),
        endpoint: "https://s3.example.com".to_owned(),
        region: "auto".to_owned(),
        access_key: access.to_owned(),
        secret_key: "secret".to_owned(),
        path_style: false,
        cdn_domain: None,
    }
}

#[test]
fn profile_map_keeps_names_sorted_and_last_insert_wins() {
    let mut m = ProfileMap::new();
    m.insert("b".to_owned(), profile("b1", "x"));
    m.insert("a".to_owned(), profile("a1", "x"));
    m.insert("b".to_owned(), profile("b2", "x"));
    assert_eq!(m.len(), 2);
    assert_eq!(m.names(), vec!["a".to_owned(), "b".to_owned()]);
    assert_eq!(m.get("b").unwrap().bucket, "b2");
    assert!(m.get("c").is_none());
    assert!(m.contains("a"));
}

#[test]
fn default_profile_must_exist() {
    let mut m = ProfileMap::new();
    m.insert("a".to_owned(), profile("a1", "x"));
    let c = AppConfig::from_settings(m, Some("a".to_owned())).unwrap();
    assert_eq!(c.default_profile(), Some("a"));
    assert_eq!(c.profile("a").unwrap().bucket, "a1");
    assert_eq!(c.profile("z").unwrap_err(), Error::ProfileNotFound("z".to_owned()));
    let c = AppConfig::from_settings(ProfileMap::new(), Some(String::new())).unwrap();
    assert_eq!(c.default_profile(), None);
    assert_eq!(
        AppConfig::from_settings(ProfileMap::new(), Some("nope".to_owned())).err(),
        Some(Error::DefaultProfileMissing("nope".to_owned()))
    );
}

#[test]
fn secrets_come_from_the_environment_or_the_file() {
    assert_eq!(env_reference("env:AK").as_deref(), Some("AK"));
    assert_eq!(env_reference("plain"), None);
    assert_eq!(resolve_secret("env:AK", SecretField::AccessKey, Some("v")), Ok("v".to_owned()));
    assert_eq!(
        resolve_secret("env:AK", SecretField::AccessKey, None),
        Err(Error::EnvVarNotSet("AK".to_owned(), SecretField::AccessKey))
    );
    assert_eq!(
        resolve_secret("env:SK", SecretField::SecretKey, Some("")),
        Err(Error::EnvVarEmpty("SK".to_owned(), SecretField::SecretKey))
    );
    assert_eq!(
        resolve_secret("", SecretField::SecretKey, None),
        Err(Error::EmptySecret(SecretField::SecretKey))
    );
    assert_eq!(resolve_secret("lit", SecretField::SecretKey, None), Ok("lit".to_owned()));
    let p = profile("b", "env:AK");
    assert_eq!(p.resolve_access_key(Some("from-env")), Ok("from-env".to_owned()));
    assert_eq!(p.resolve_secret_key(None), Ok("secret".to_owned()));
}

#[test]
fn init_refuses_to_overwrite_without_force() {
    assert_eq!(check_init("/c.toml", true, false), Err(Error::ConfigExists("/c.toml".to_owned())));
    assert_eq!(check_init("/c.toml", true, true), Ok(()));
    assert_eq!(check_init("/c.toml", false, false), Ok(()));
    let t = config_template();
    assert!(t.starts_with("[settings]\n# default_profile = \"myprofile\"\n"));
    assert!(t.ends_with("# cdn_domain = \"https://cdn.example.com\"\n"));
}
