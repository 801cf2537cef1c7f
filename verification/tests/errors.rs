use bucketctl::error::{Error, SecretField, ShellOnly, Usage};

#[test]
fn messages_match_the_shell() {
    assert_eq!(
        Error::OnlyInteractive(ShellOnly::Cd).message(),
        "`cd` is only available in the interactive shell"
    );
    assert_eq!(Error::Usage(Usage::Get).message(), "usage: get [-r] <remote> [local]");
    assert_eq!(Error::UnknownCommand("x".to_owned()).message(), "unknown command `x`");
    assert_eq!(Error::PathEscapesRoot.message(), "path escapes bucket root");
    assert_eq!(
        Error::EnvVarNotSet("AK".to_owned(), SecretField::AccessKey).message(),
        "environment variable `AK` for `access_key` is not set"
    );
    assert_eq!(
        Error::EmptySecret(SecretField::SecretKey).message(),
        "`secret_key` cannot be empty"
    );
    assert_eq!(Error::TransfersFailed(3).message(), "3 transfer(s) failed");
    assert_eq!(
        Error::CdnStatus("k".to_owned(), 500).message(),
        "cdn download failed for `k`: HTTP 500 Internal Server Error"
    );
    assert_eq!(
        Error::CdnForbidden("k".to_owned()).message(),
        "access denied via cdn_domain for `k`\u{2014}object may not be public"
    );
    assert_eq!(
        Error::MultipartIncomplete(3, 2).message(),
        "multipart upload incomplete: expected 3 parts, uploaded 2"
    );
    assert_eq!(
        Error::NoSuchRemoteDir("/a".to_owned()).message(),
        "no such remote directory: /a"
    );
    assert_eq!(
        Error::CommandFirstSyntax.message(),
        "non-interactive mode uses command-first syntax, for example `bucketctl ls mybucket`"
    );
}
