//! How failures of object-store requests, and interrupted transfers, are
//! reported.

use vstd::prelude::*;

use crate::text::{from_chars, push_str};

verus! {

/// How an object-store request failed, as far as the message depends on it.
#[derive(Debug, Clone, Copy, PartialEq, Eq, Structural)]
pub enum S3Failure {
    /// The service answered with this HTTP status.
    Service(u16),
    /// The request could not be sent (no connection).
    Dispatch,
    /// The request timed out.
    Timeout,
    /// Anything else.
    Other,
}

/// The message of a failed request: not found, access denied and a wrong
/// region or endpoint are named; a connection failure or a timeout names
/// the endpoint; anything else is described by the client (`display`).
pub open spec fn spec_s3_error_message(
    failure: S3Failure,
    bucket: Seq<char>,
    key: Option<Seq<char>>,
    endpoint: Seq<char>,
    display: Seq<char>,
) -> Seq<char> {
    match failure {
        S3Failure::Service(404) => "remote object not found: "@ + match key {
            Some(k) => k,
            None => "(unknown)"@,
        },
        S3Failure::Service(403) => "access denied for bucket `"@ + bucket
            + "`\u{2014}check keys and endpoint"@,
        S3Failure::Service(301) => "region or endpoint mismatch for bucket `"@ + bucket
            + "`\u{2014}check config endpoint/region"@,
        S3Failure::Service(_) => display,
        S3Failure::Dispatch => "failed to connect to "@ + endpoint,
        S3Failure::Timeout => "request to "@ + endpoint + " timed out"@,
        S3Failure::Other => display,
    }
}

/// The message of a failed object-store request.
pub fn s3_error_message(
    failure: S3Failure,
    bucket: &str,
    key: Option<&str>,
    endpoint: &str,
    display: &str,
) -> (r: String)
    ensures
        r@ == spec_s3_error_message(
            failure,
            bucket@,
            crate::command::parse::opt_str_view(key),
            endpoint@,
            display@,
        ),
{
    let mut out: Vec<char> = Vec::new();
    match failure {
        S3Failure::Service(404) => {
            push_str(&mut out, "remote object not found: ");
            match key {
                Some(k) => push_str(&mut out, k),
                None => push_str(&mut out, "(unknown)"),
            }
        },
        S3Failure::Service(403) => {
            push_str(&mut out, "access denied for bucket `");
            push_str(&mut out, bucket);
            push_str(&mut out, "`\u{2014}check keys and endpoint");
        },
        S3Failure::Service(301) => {
            push_str(&mut out, "region or endpoint mismatch for bucket `");
            push_str(&mut out, bucket);
            push_str(&mut out, "`\u{2014}check config endpoint/region");
        },
        S3Failure::Service(_) => push_str(&mut out, display),
        S3Failure::Dispatch => {
            push_str(&mut out, "failed to connect to ");
            push_str(&mut out, endpoint);
        },
        S3Failure::Timeout => {
            push_str(&mut out, "request to ");
            push_str(&mut out, endpoint);
            push_str(&mut out, " timed out");
        },
        S3Failure::Other => push_str(&mut out, display),
    }
    from_chars(&out)
}

/// The message of an upload the user interrupted.
pub fn upload_interrupted_message(key: &str) -> (r: String)
    ensures
        r@ == "upload interrupted for `"@ + key@ + "`"@,
{
    let mut out: Vec<char> = Vec::new();
    push_str(&mut out, "upload interrupted for `");
    push_str(&mut out, key);
    push_str(&mut out, "`");
    from_chars(&out)
}

/// The message of a download the user interrupted.
pub fn download_interrupted_message(part_path: &str) -> (r: String)
    ensures
        r@ == "download interrupted; partial file kept at "@ + part_path@,
{
    let mut out: Vec<char> = Vec::new();
    push_str(&mut out, "download interrupted; partial file kept at ");
    push_str(&mut out, part_path);
    from_chars(&out)
}

} // verus!
