//! The library's error type.

use vstd::prelude::*;

use crate::text::{decimal, decimal_chars, from_chars, push_all, push_str};

verus! {

/// Commands that only the interactive shell accepts.
#[derive(Debug, Clone, Copy, PartialEq, Eq, Structural)]
pub enum ShellOnly {
    Exit,
    Pwd,
    Cd,
}

/// Usage lines reported for malformed commands.
#[derive(Debug, Clone, Copy, PartialEq, Eq, Structural)]
pub enum Usage {
    /// `usage: mkdir <remote-dir>`
    Mkdir,
    /// `usage: put [-r] <local> [remote]`
    Put,
    /// `usage: put [-r] <local> [<profile>:/path]`
    PutProfile,
    /// `usage: get [-r] <remote> [local]`
    Get,
    /// `usage: rm [-r] [-y] <remote>`
    Rm,
    /// `usage: rm [-r] [-y] <remote-dir>`
    RmDir,
}

/// Which credential field of a profile a secret came from.
#[derive(Debug, Clone, Copy, PartialEq, Eq, Structural)]
pub enum SecretField {
    AccessKey,
    SecretKey,
}

/// Everything that can go wrong in the library's logic.
#[derive(Debug, Clone, PartialEq, Eq)]
pub enum Error {
    /// A command that only the interactive shell accepts was given on the command line.
    OnlyInteractive(ShellOnly),
    /// A command was malformed.
    Usage(Usage),
    /// The first word is not a command.
    UnknownCommand(String),
    /// The command line has unbalanced quotes or escapes.
    CommandLineSyntax,
    /// `profile:/path` was used in the interactive shell.
    ProfileRefInteractive,
    /// A remote target lacks the `:` of `<profile>:/path`.
    ExpectedRemoteTarget,
    /// A remote target has nothing before its `:`.
    InvalidProfileRef(String),
    /// A remote target has nothing but whitespace after its `:`.
    MissingRemotePath(String),
    /// A `..` climbs above the bucket root.
    PathEscapesRoot,
    /// A local path has no file name.
    LocalNoFileName,
    /// A remote path has no object name.
    RemoteNoObjectName,
    /// No profile is attached to the session.
    NoProfileAttached,
    /// The named profile does not exist.
    ProfileNotFound(String),
    /// `default_profile` names a profile that does not exist.
    DefaultProfileMissing(String),
    /// A credential names an environment variable that is not set.
    EnvVarNotSet(String, SecretField),
    /// A credential names an environment variable that is empty.
    EnvVarEmpty(String, SecretField),
    /// A credential is empty.
    EmptySecret(SecretField),
    /// A recursive upload was asked of something that is not a local directory.
    NotLocalDirectory(String),
    /// The local directory of a recursive upload has no name.
    LocalDirNoName,
    /// A file found under a directory does not lie under it; the file and the directory.
    NotUnder(String, String),
    /// A recursive download of the bucket root without a local directory.
    BucketRootNeedsLocal,
    /// A recursive download without a named prefix or a local directory.
    NeedsNamedPrefix,
    /// Some transfers of a recursive transfer failed; the count.
    TransfersFailed(usize),
    /// A profile root was given where a remote path is needed.
    ProfileRootNotPath,
    /// A remote path is needed.
    ExpectedRemotePath,
    /// A bare path was given on the command line and no default profile is attached.
    NoDefaultAttached,
    /// A bare `ls` target is neither a profile nor usable without a default profile.
    UnknownLsTarget(String),
    /// `cd` to a directory that does not exist; the displayed path.
    NoSuchRemoteDir(String),
    /// An interactive recursive delete while stdin is not a terminal.
    DeleteNeedsTerminal,
    /// Shell completion asked for an unknown shell.
    UnsupportedShell(String),
    /// `cdn_domain` does not start with `http://` or `https://`.
    CdnScheme(String),
    /// `cdn_domain` is not a URL.
    InvalidCdnDomain(String),
    /// `cdn_domain` cannot have a path appended; the URL.
    CdnNotBase(String),
    /// A partial download is larger than the remote object; the partial file's path.
    PartialTooLarge(String),
    /// The CDN answered 416 to a resumed download; the key.
    CdnRangeNotSatisfiable(String),
    /// The object does not exist; the key.
    RemoteNotFound(String),
    /// The CDN refused access; the key.
    CdnForbidden(String),
    /// The CDN answered with another status; the key and the status.
    CdnStatus(String, u16),
    /// A multipart upload ended with parts missing: the parts planned and
    /// those uploaded.
    MultipartIncomplete(usize, usize),
    /// The config file exists and `--force` was not given; its path.
    ConfigExists(String),
    /// The command line starts with neither a command nor nothing.
    CommandFirstSyntax,
}

/// The model of [`Error`]: strings by their characters.
pub ghost enum ErrorModel {
    OnlyInteractive(ShellOnly),
    Usage(Usage),
    UnknownCommand(Seq<char>),
    CommandLineSyntax,
    ProfileRefInteractive,
    ExpectedRemoteTarget,
    InvalidProfileRef(Seq<char>),
    MissingRemotePath(Seq<char>),
    PathEscapesRoot,
    LocalNoFileName,
    RemoteNoObjectName,
    NoProfileAttached,
    ProfileNotFound(Seq<char>),
    DefaultProfileMissing(Seq<char>),
    EnvVarNotSet(Seq<char>, SecretField),
    EnvVarEmpty(Seq<char>, SecretField),
    EmptySecret(SecretField),
    NotLocalDirectory(Seq<char>),
    LocalDirNoName,
    NotUnder(Seq<char>, Seq<char>),
    BucketRootNeedsLocal,
    NeedsNamedPrefix,
    TransfersFailed(nat),
    ProfileRootNotPath,
    ExpectedRemotePath,
    NoDefaultAttached,
    UnknownLsTarget(Seq<char>),
    NoSuchRemoteDir(Seq<char>),
    DeleteNeedsTerminal,
    UnsupportedShell(Seq<char>),
    CdnScheme(Seq<char>),
    InvalidCdnDomain(Seq<char>),
    CdnNotBase(Seq<char>),
    PartialTooLarge(Seq<char>),
    CdnRangeNotSatisfiable(Seq<char>),
    RemoteNotFound(Seq<char>),
    CdnForbidden(Seq<char>),
    CdnStatus(Seq<char>, u16),
    MultipartIncomplete(nat, nat),
    ConfigExists(Seq<char>),
    CommandFirstSyntax,
}

impl View for Error {
    type V = ErrorModel;

    open spec fn view(&self) -> ErrorModel {
        match self {
            Error::OnlyInteractive(c) => ErrorModel::OnlyInteractive(*c),
            Error::Usage(u) => ErrorModel::Usage(*u),
            Error::UnknownCommand(s) => ErrorModel::UnknownCommand(s@),
            Error::CommandLineSyntax => ErrorModel::CommandLineSyntax,
            Error::ProfileRefInteractive => ErrorModel::ProfileRefInteractive,
            Error::ExpectedRemoteTarget => ErrorModel::ExpectedRemoteTarget,
            Error::InvalidProfileRef(s) => ErrorModel::InvalidProfileRef(s@),
            Error::MissingRemotePath(s) => ErrorModel::MissingRemotePath(s@),
            Error::PathEscapesRoot => ErrorModel::PathEscapesRoot,
            Error::LocalNoFileName => ErrorModel::LocalNoFileName,
            Error::RemoteNoObjectName => ErrorModel::RemoteNoObjectName,
            Error::NoProfileAttached => ErrorModel::NoProfileAttached,
            Error::ProfileNotFound(s) => ErrorModel::ProfileNotFound(s@),
            Error::DefaultProfileMissing(s) => ErrorModel::DefaultProfileMissing(s@),
            Error::EnvVarNotSet(s, f) => ErrorModel::EnvVarNotSet(s@, *f),
            Error::EnvVarEmpty(s, f) => ErrorModel::EnvVarEmpty(s@, *f),
            Error::EmptySecret(f) => ErrorModel::EmptySecret(*f),
            Error::NotLocalDirectory(s) => ErrorModel::NotLocalDirectory(s@),
            Error::LocalDirNoName => ErrorModel::LocalDirNoName,
            Error::NotUnder(f, d) => ErrorModel::NotUnder(f@, d@),
            Error::BucketRootNeedsLocal => ErrorModel::BucketRootNeedsLocal,
            Error::NeedsNamedPrefix => ErrorModel::NeedsNamedPrefix,
            Error::TransfersFailed(n) => ErrorModel::TransfersFailed(*n as nat),
            Error::ProfileRootNotPath => ErrorModel::ProfileRootNotPath,
            Error::ExpectedRemotePath => ErrorModel::ExpectedRemotePath,
            Error::NoDefaultAttached => ErrorModel::NoDefaultAttached,
            Error::UnknownLsTarget(s) => ErrorModel::UnknownLsTarget(s@),
            Error::NoSuchRemoteDir(s) => ErrorModel::NoSuchRemoteDir(s@),
            Error::DeleteNeedsTerminal => ErrorModel::DeleteNeedsTerminal,
            Error::UnsupportedShell(s) => ErrorModel::UnsupportedShell(s@),
            Error::CdnScheme(s) => ErrorModel::CdnScheme(s@),
            Error::InvalidCdnDomain(s) => ErrorModel::InvalidCdnDomain(s@),
            Error::CdnNotBase(s) => ErrorModel::CdnNotBase(s@),
            Error::PartialTooLarge(s) => ErrorModel::PartialTooLarge(s@),
            Error::CdnRangeNotSatisfiable(s) => ErrorModel::CdnRangeNotSatisfiable(s@),
            Error::RemoteNotFound(s) => ErrorModel::RemoteNotFound(s@),
            Error::CdnForbidden(s) => ErrorModel::CdnForbidden(s@),
            Error::CdnStatus(s, c) => ErrorModel::CdnStatus(s@, *c),
            Error::MultipartIncomplete(a, b) => ErrorModel::MultipartIncomplete(
                *a as nat,
                *b as nat,
            ),
            Error::ConfigExists(s) => ErrorModel::ConfigExists(s@),
            Error::CommandFirstSyntax => ErrorModel::CommandFirstSyntax,
        }
    }
}

/// A result of the library, with both sides taken by their views.
pub open spec fn result_view<T: View>(r: Result<T, Error>) -> Result<T::V, ErrorModel> {
    match r {
        Ok(v) => Ok(v@),
        Err(e) => Err(e@),
    }
}

/// What `StatusCode::canonical_reason` gives for `code`, or
/// `<unknown status code>` where it has none.
pub uninterp spec fn http_status_reason(code: u16) -> Seq<char>;

/// `reqwest::StatusCode::from_u16(code)` displayed: the code, a space and
/// the reason phrase (`404 Not Found`); `None` for codes outside 100 to
/// 999, which are not status codes. The reason phrase is named, not
/// stated.
#[verifier::external_body]
fn status_display(code: u16) -> (r: Option<String>)
    ensures
        (100 <= code <= 999) == (r is Some),
        r matches Some(t) ==> t@ == decimal(code as nat) + " "@ + http_status_reason(code),
{
    match reqwest::StatusCode::from_u16(code) {
        Ok(status) => Some(status.to_string()),
        Err(_) => None,
    }
}

/// The name of a credential field in the config file.
pub open spec fn field_name(f: SecretField) -> Seq<char> {
    match f {
        SecretField::AccessKey => "access_key"@,
        SecretField::SecretKey => "secret_key"@,
    }
}

/// The usage line of a malformed command.
pub open spec fn usage_line(u: Usage) -> Seq<char> {
    match u {
        Usage::Mkdir => "usage: mkdir <remote-dir>"@,
        Usage::Put => "usage: put [-r] <local> [remote]"@,
        Usage::PutProfile => "usage: put [-r] <local> [<profile>:/path]"@,
        Usage::Get => "usage: get [-r] <remote> [local]"@,
        Usage::Rm => "usage: rm [-r] [-y] <remote>"@,
        Usage::RmDir => "usage: rm [-r] [-y] <remote-dir>"@,
    }
}

/// The name of a command only the shell runs.
pub open spec fn shell_only_name(c: ShellOnly) -> Seq<char> {
    match c {
        ShellOnly::Exit => "exit"@,
        ShellOnly::Pwd => "pwd"@,
        ShellOnly::Cd => "cd"@,
    }
}

/// The message an error is shown with.
pub open spec fn error_message(e: ErrorModel) -> Seq<char> {
    match e {
        ErrorModel::OnlyInteractive(c) => "`"@ + shell_only_name(c)
            + "` is only available in the interactive shell"@,
        ErrorModel::Usage(u) => usage_line(u),
        ErrorModel::UnknownCommand(c) => "unknown command `"@ + c + "`"@,
        ErrorModel::CommandLineSyntax => "failed to parse command line"@,
        ErrorModel::ProfileRefInteractive =>
            "profile references like `profile:/path` are not supported in the interactive shell"@,
        ErrorModel::ExpectedRemoteTarget => "expected remote target like `<profile>:/path`"@,
        ErrorModel::InvalidProfileRef(i) => "invalid profile reference `"@ + i + "`"@,
        ErrorModel::MissingRemotePath(i) => "missing remote path in `"@ + i + "`"@,
        ErrorModel::PathEscapesRoot => "path escapes bucket root"@,
        ErrorModel::LocalNoFileName => "local path must point to a file name"@,
        ErrorModel::RemoteNoObjectName => "remote path must point to an object"@,
        ErrorModel::NoProfileAttached => "no profile attached"@,
        ErrorModel::ProfileNotFound(n) => "profile `"@ + n + "` not found in config"@,
        ErrorModel::DefaultProfileMissing(n) => "default_profile `"@ + n
            + "` not found in config profiles"@,
        ErrorModel::EnvVarNotSet(n, f) => "environment variable `"@ + n + "` for `"@ + field_name(
            f,
        ) + "` is not set"@,
        ErrorModel::EnvVarEmpty(n, f) => "environment variable `"@ + n + "` for `"@ + field_name(f)
            + "` is empty"@,
        ErrorModel::EmptySecret(f) => "`"@ + field_name(f) + "` cannot be empty"@,
        ErrorModel::NotLocalDirectory(p) => "recursive upload requires a local directory: "@ + p,
        ErrorModel::LocalDirNoName => "local directory must have a name"@,
        ErrorModel::NotUnder(f, d) => f + " is not under "@ + d,
        ErrorModel::BucketRootNeedsLocal =>
            "recursive download of the bucket root requires an explicit local directory (e.g. `get -r / ./backup`)"@,
        ErrorModel::NeedsNamedPrefix =>
            "recursive download requires a named remote prefix or an explicit local directory"@,
        ErrorModel::TransfersFailed(n) => decimal(n) + " transfer(s) failed"@,
        ErrorModel::ProfileRootNotPath => "expected a remote path, not a profile root"@,
        ErrorModel::ExpectedRemotePath =>
            "expected remote path like `<profile>:/path` or a cwd-relative path"@,
        ErrorModel::NoDefaultAttached => "no default profile attached; use `<profile>:/path`"@,
        ErrorModel::UnknownLsTarget(n) => "profile `"@ + n
            + "` not found, and no default profile set"@,
        ErrorModel::NoSuchRemoteDir(d) => "no such remote directory: "@ + d,
        ErrorModel::DeleteNeedsTerminal =>
            "recursive delete requires -y when stdin is not a terminal"@,
        ErrorModel::UnsupportedShell(s) => "unsupported shell `"@ + s
            + "`; expected bash, zsh, or fish"@,
        ErrorModel::CdnScheme(d) => "cdn_domain `"@ + d + "` must start with http:// or https://"@,
        ErrorModel::InvalidCdnDomain(d) => "invalid cdn_domain `"@ + d + "`"@,
        ErrorModel::CdnNotBase(u) => "cdn_domain `"@ + u + "` cannot be a base URL"@,
        ErrorModel::PartialTooLarge(p) => "partial file "@ + p
            + " is larger than remote object; remove it and retry"@,
        ErrorModel::CdnRangeNotSatisfiable(k) => "cdn download failed for `"@ + k
            + "`: HTTP 416 range not satisfiable"@,
        ErrorModel::RemoteNotFound(k) => "remote object not found: "@ + k,
        ErrorModel::CdnForbidden(k) => "access denied via cdn_domain for `"@ + k
            + "`\u{2014}object may not be public"@,
        ErrorModel::CdnStatus(k, c) => "cdn download failed for `"@ + k + "`: HTTP "@ + if 100 <= c
            <= 999 {
            decimal(c as nat) + " "@ + http_status_reason(c)
        } else {
            decimal(c as nat)
        },
        ErrorModel::MultipartIncomplete(a, b) => "multipart upload incomplete: expected "@
            + decimal(a) + " parts, uploaded "@ + decimal(b),
        ErrorModel::ConfigExists(p) => "config file already exists at "@ + p
            + "; use --force to overwrite"@,
        ErrorModel::CommandFirstSyntax =>
            "non-interactive mode uses command-first syntax, for example `bucketctl ls mybucket`"@,
    }
}

impl Error {
    /// The message the error is shown with.
    pub fn message(&self) -> (r: String)
        ensures
            r@ == error_message(self@),
    {
        let mut out: Vec<char> = Vec::new();
        match self {
            Error::OnlyInteractive(c) => {
                push_str(&mut out, "`");
                match c {
                    ShellOnly::Exit => push_str(&mut out, "exit"),
                    ShellOnly::Pwd => push_str(&mut out, "pwd"),
                    ShellOnly::Cd => push_str(&mut out, "cd"),
                }
                push_str(&mut out, "` is only available in the interactive shell");
            },
            Error::Usage(u) => match u {
                Usage::Mkdir => push_str(&mut out, "usage: mkdir <remote-dir>"),
                Usage::Put => push_str(&mut out, "usage: put [-r] <local> [remote]"),
                Usage::PutProfile => push_str(&mut out, "usage: put [-r] <local> [<profile>:/path]"),
                Usage::Get => push_str(&mut out, "usage: get [-r] <remote> [local]"),
                Usage::Rm => push_str(&mut out, "usage: rm [-r] [-y] <remote>"),
                Usage::RmDir => push_str(&mut out, "usage: rm [-r] [-y] <remote-dir>"),
            },
            Error::UnknownCommand(c) => {
                push_str(&mut out, "unknown command `");
                push_str(&mut out, c.as_str());
                push_str(&mut out, "`");
            },
            Error::CommandLineSyntax => push_str(&mut out, "failed to parse command line"),
            Error::ProfileRefInteractive => push_str(
                &mut out,
                "profile references like `profile:/path` are not supported in the interactive shell",
            ),
            Error::ExpectedRemoteTarget => push_str(
                &mut out,
                "expected remote target like `<profile>:/path`",
            ),
            Error::InvalidProfileRef(i) => {
                push_str(&mut out, "invalid profile reference `");
                push_str(&mut out, i.as_str());
                push_str(&mut out, "`");
            },
            Error::MissingRemotePath(i) => {
                push_str(&mut out, "missing remote path in `");
                push_str(&mut out, i.as_str());
                push_str(&mut out, "`");
            },
            Error::PathEscapesRoot => push_str(&mut out, "path escapes bucket root"),
            Error::LocalNoFileName => push_str(&mut out, "local path must point to a file name"),
            Error::RemoteNoObjectName => push_str(&mut out, "remote path must point to an object"),
            Error::NoProfileAttached => push_str(&mut out, "no profile attached"),
            Error::ProfileNotFound(n) => {
                push_str(&mut out, "profile `");
                push_str(&mut out, n.as_str());
                push_str(&mut out, "` not found in config");
            },
            Error::DefaultProfileMissing(n) => {
                push_str(&mut out, "default_profile `");
                push_str(&mut out, n.as_str());
                push_str(&mut out, "` not found in config profiles");
            },
            Error::EnvVarNotSet(n, f) => {
                push_str(&mut out, "environment variable `");
                push_str(&mut out, n.as_str());
                push_str(&mut out, "` for `");
                push_field(&mut out, *f);
                push_str(&mut out, "` is not set");
            },
            Error::EnvVarEmpty(n, f) => {
                push_str(&mut out, "environment variable `");
                push_str(&mut out, n.as_str());
                push_str(&mut out, "` for `");
                push_field(&mut out, *f);
                push_str(&mut out, "` is empty");
            },
            Error::EmptySecret(f) => {
                push_str(&mut out, "`");
                push_field(&mut out, *f);
                push_str(&mut out, "` cannot be empty");
            },
            Error::NotLocalDirectory(p) => {
                push_str(&mut out, "recursive upload requires a local directory: ");
                push_str(&mut out, p.as_str());
            },
            Error::LocalDirNoName => push_str(&mut out, "local directory must have a name"),
            Error::NotUnder(f, d) => {
                push_str(&mut out, f.as_str());
                push_str(&mut out, " is not under ");
                push_str(&mut out, d.as_str());
            },
            Error::BucketRootNeedsLocal => push_str(
                &mut out,
                "recursive download of the bucket root requires an explicit local directory (e.g. `get -r / ./backup`)",
            ),
            Error::NeedsNamedPrefix => push_str(
                &mut out,
                "recursive download requires a named remote prefix or an explicit local directory",
            ),
            Error::TransfersFailed(n) => {
                push_all(&mut out, &decimal_chars(*n as u64));
                push_str(&mut out, " transfer(s) failed");
            },
            Error::ProfileRootNotPath => push_str(
                &mut out,
                "expected a remote path, not a profile root",
            ),
            Error::ExpectedRemotePath => push_str(
                &mut out,
                "expected remote path like `<profile>:/path` or a cwd-relative path",
            ),
            Error::NoDefaultAttached => push_str(
                &mut out,
                "no default profile attached; use `<profile>:/path`",
            ),
            Error::UnknownLsTarget(n) => {
                push_str(&mut out, "profile `");
                push_str(&mut out, n.as_str());
                push_str(&mut out, "` not found, and no default profile set");
            },
            Error::NoSuchRemoteDir(d) => {
                push_str(&mut out, "no such remote directory: ");
                push_str(&mut out, d.as_str());
            },
            Error::DeleteNeedsTerminal => push_str(
                &mut out,
                "recursive delete requires -y when stdin is not a terminal",
            ),
            Error::UnsupportedShell(sh) => {
                push_str(&mut out, "unsupported shell `");
                push_str(&mut out, sh.as_str());
                push_str(&mut out, "`; expected bash, zsh, or fish");
            },
            Error::CdnScheme(d) => {
                push_str(&mut out, "cdn_domain `");
                push_str(&mut out, d.as_str());
                push_str(&mut out, "` must start with http:// or https://");
            },
            Error::InvalidCdnDomain(d) => {
                push_str(&mut out, "invalid cdn_domain `");
                push_str(&mut out, d.as_str());
                push_str(&mut out, "`");
            },
            Error::CdnNotBase(u) => {
                push_str(&mut out, "cdn_domain `");
                push_str(&mut out, u.as_str());
                push_str(&mut out, "` cannot be a base URL");
            },
            Error::PartialTooLarge(p) => {
                push_str(&mut out, "partial file ");
                push_str(&mut out, p.as_str());
                push_str(&mut out, " is larger than remote object; remove it and retry");
            },
            Error::CdnRangeNotSatisfiable(k) => {
                push_str(&mut out, "cdn download failed for `");
                push_str(&mut out, k.as_str());
                push_str(&mut out, "`: HTTP 416 range not satisfiable");
            },
            Error::RemoteNotFound(k) => {
                push_str(&mut out, "remote object not found: ");
                push_str(&mut out, k.as_str());
            },
            Error::CdnForbidden(k) => {
                push_str(&mut out, "access denied via cdn_domain for `");
                push_str(&mut out, k.as_str());
                push_str(&mut out, "`\u{2014}object may not be public");
            },
            Error::CdnStatus(k, c) => {
                push_str(&mut out, "cdn download failed for `");
                push_str(&mut out, k.as_str());
                push_str(&mut out, "`: HTTP ");
                match status_display(*c) {
                    Some(t) => push_str(&mut out, t.as_str()),
                    None => push_all(&mut out, &decimal_chars(*c as u64)),
                }
            },
            Error::MultipartIncomplete(a, b) => {
                push_str(&mut out, "multipart upload incomplete: expected ");
                push_all(&mut out, &decimal_chars(*a as u64));
                push_str(&mut out, " parts, uploaded ");
                push_all(&mut out, &decimal_chars(*b as u64));
            },
            Error::ConfigExists(p) => {
                push_str(&mut out, "config file already exists at ");
                push_str(&mut out, p.as_str());
                push_str(&mut out, "; use --force to overwrite");
            },
            Error::CommandFirstSyntax => push_str(
                &mut out,
                "non-interactive mode uses command-first syntax, for example `bucketctl ls mybucket`",
            ),
        }
        from_chars(&out)
    }
}

/// Appends the name of a credential field.
fn push_field(out: &mut Vec<char>, f: SecretField)
    ensures
        final(out)@ == old(out)@ + field_name(f),
{
    match f {
        SecretField::AccessKey => push_str(out, "access_key"),
        SecretField::SecretKey => push_str(out, "secret_key"),
    }
}

} // verus!
