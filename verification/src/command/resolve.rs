//! Remote targets named on the command line.

use vstd::prelude::*;

use super::types::{ExecMode, RemoteSpec, RemoteSpecModel};
use crate::error::{Error, ErrorModel};
use crate::text::{
    contains_char, find_first, find_first_char, from_chars, starts_with_ch, starts_with_char, sub_chars,
    to_chars, trim_whitespace, trim_ws,
};

verus! {

/// The trimmed remote path, or `None` when nothing but whitespace is left.
pub open spec fn spec_normalize_remote_spec(remote: Seq<char>) -> Option<Seq<char>> {
    let t = trim_ws(remote);
    if t.len() == 0 {
        None
    } else {
        Some(t)
    }
}

/// `<profile>:<path>` split at its first `:`, the path trimmed.
pub open spec fn spec_parse_remote_target(input: Seq<char>) -> Result<
    (Seq<char>, Seq<char>),
    ErrorModel,
> {
    match find_first(input, ':') {
        None => Err(ErrorModel::ExpectedRemoteTarget),
        Some(i) => if i == 0 {
            Err(ErrorModel::InvalidProfileRef(input))
        } else {
            match spec_normalize_remote_spec(input.skip(i + 1)) {
                None => Err(ErrorModel::MissingRemotePath(input)),
                Some(remote) => Ok((input.take(i), remote)),
            }
        },
    }
}

/// A profile reference when `input` holds a `:`, else a path in the current bucket.
pub open spec fn spec_parse_remote_spec(input: Seq<char>, mode: ExecMode) -> Result<
    RemoteSpecModel,
    ErrorModel,
> {
    if input.contains(':') {
        if mode == ExecMode::Interactive {
            Err(ErrorModel::ProfileRefInteractive)
        } else {
            match spec_parse_remote_target(input) {
                Ok((profile, path)) => Ok(RemoteSpecModel::ProfilePath { profile, path }),
                Err(e) => Err(e),
            }
        }
    } else {
        Ok(RemoteSpecModel::Path(input))
    }
}

/// Like [`spec_parse_remote_spec`], but on the command line a bare name that
/// does not start with `/` may name a profile.
pub open spec fn spec_parse_ls_target(input: Seq<char>, mode: ExecMode) -> Result<
    RemoteSpecModel,
    ErrorModel,
> {
    if input.contains(':') {
        spec_parse_remote_spec(input, mode)
    } else if mode == ExecMode::NonInteractive && !starts_with_ch(input, '/') {
        Ok(RemoteSpecModel::BareLsTarget(input))
    } else {
        Ok(RemoteSpecModel::Path(input))
    }
}

/// Splits `<profile>:/path` into the profile and the trimmed path.
pub fn parse_remote_target(input: &str) -> (r: Result<(String, String), Error>)
    ensures
        match r {
            Ok((profile, path)) => spec_parse_remote_target(input@) == Ok::<
                (Seq<char>, Seq<char>),
                ErrorModel,
            >((profile@, path@)),
            Err(e) => spec_parse_remote_target(input@) == Err::<(Seq<char>, Seq<char>), ErrorModel>(
                e@,
            ),
        },
{
    let v = to_chars(input);
    match find_first_char(&v, ':') {
        None => Err(Error::ExpectedRemoteTarget),
        Some(i) => {
            if i == 0 {
                return Err(Error::InvalidProfileRef(input.to_owned()));
            }
            let n = v.len();
            assert(i < n);
            let rest = sub_chars(&v, i + 1, n);
            let trimmed = trim_whitespace(&rest);
            proof {
                assert(rest@ =~= input@.skip(i + 1));
            }
            if trimmed.len() == 0 {
                return Err(Error::MissingRemotePath(input.to_owned()));
            }
            let profile = sub_chars(&v, 0, i);
            proof {
                assert(profile@ =~= input@.take(i as int));
            }
            Ok((from_chars(&profile), from_chars(&trimmed)))
        },
    }
}

/// The trimmed remote path, or `None` when it is blank.
pub fn normalize_remote_spec(remote: &str) -> (r: Option<String>)
    ensures
        opt_view(r) == spec_normalize_remote_spec(remote@),
{
    let v = to_chars(remote);
    let t = trim_whitespace(&v);
    if t.len() == 0 {
        None
    } else {
        Some(from_chars(&t))
    }
}

/// The model of an optional string.
pub open spec fn opt_view(s: Option<String>) -> Option<Seq<char>> {
    match s {
        Some(s) => Some(s@),
        None => None,
    }
}

/// A remote target: `<profile>:/path` on the command line, or a path.
pub fn parse_remote_spec(input: &str, mode: ExecMode) -> (r: Result<RemoteSpec, Error>)
    ensures
        crate::error::result_view(r) == spec_parse_remote_spec(input@, mode),
{
    let v = to_chars(input);
    if contains_char(&v, ':') {
        match mode {
            ExecMode::Interactive => Err(Error::ProfileRefInteractive),
            ExecMode::NonInteractive => {
                let (profile, path) = parse_remote_target(input)?;
                Ok(RemoteSpec::ProfilePath { profile, path })
            },
        }
    } else {
        Ok(RemoteSpec::Path(input.to_owned()))
    }
}

/// The target of `ls`: like [`parse_remote_spec`], but a bare name on the
/// command line may name a profile.
pub fn parse_ls_target(input: &str, mode: ExecMode) -> (r: Result<RemoteSpec, Error>)
    ensures
        crate::error::result_view(r) == spec_parse_ls_target(input@, mode),
{
    let v = to_chars(input);
    if contains_char(&v, ':') {
        return parse_remote_spec(input, mode);
    }
    match mode {
        ExecMode::NonInteractive => {
            if !starts_with_char(&v, '/') {
                return Ok(RemoteSpec::BareLsTarget(input.to_owned()));
            }
            Ok(RemoteSpec::Path(input.to_owned()))
        },
        ExecMode::Interactive => Ok(RemoteSpec::Path(input.to_owned())),
    }
}

} // verus!
