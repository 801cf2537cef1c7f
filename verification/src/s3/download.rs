//! Resumable downloads: where the partial file lives, and whether a
//! download starts, resumes, or is already complete.

use vstd::prelude::*;

use crate::error::{Error, ErrorModel};
use crate::local_path::{file_name, path_file_name, path_with_file_name, with_file_name};
use crate::text::{decimal, decimal_chars, from_chars, push_all, push_str, to_chars};

verus! {

/// The partial file of a download to `local`: its file name with
/// `.download` appended, beside it (`.download` where it has no file name).
pub open spec fn spec_download_part_path(local: Seq<char>) -> Seq<char> {
    let name = match file_name(local) {
        Some(n) => n + ".download"@,
        None => ".download"@,
    };
    with_file_name(local, name)
}

/// The partial file that a download to `local_path` writes.
pub fn download_part_path(local_path: &str) -> (r: String)
    ensures
        r@ == spec_download_part_path(local_path@),
{
    let name = match path_file_name(local_path) {
        Some(n) => {
            let mut v = to_chars(n.as_str());
            push_str(&mut v, ".download");
            from_chars(&v)
        },
        None => ".download".to_owned(),
    };
    path_with_file_name(local_path, name.as_str())
}

/// The size of an object from its `Content-Length` (none for a negative one).
pub fn object_size(content_length: Option<i64>) -> (r: Option<u64>)
    ensures
        r == match content_length {
            Some(l) => if l >= 0 {
                Some(l as u64)
            } else {
                None
            },
            None => None,
        },
{
    match content_length {
        Some(l) => {
            if l >= 0 {
                Some(l as u64)
            } else {
                None
            }
        },
        None => None,
    }
}

/// How a download proceeds.
#[derive(Debug, Clone, PartialEq, Eq)]
pub enum DownloadStep {
    /// The partial file already holds the whole object: rename it.
    Complete { total: u64 },
    /// Fetch the object from byte `resume_from` on, with this `Range`
    /// header where it resumes.
    Fetch { resume_from: u64, range: Option<String> },
}

/// The `Range` header that asks for the bytes from `start` on.
pub open spec fn spec_range_header(start: nat) -> Seq<char> {
    "bytes="@ + decimal(start) + "-"@
}

/// The `Range` header that asks for the bytes from `start` on.
pub fn range_header(start: u64) -> (r: String)
    ensures
        r@ == spec_range_header(start as nat),
{
    let mut v: Vec<char> = Vec::new();
    push_str(&mut v, "bytes=");
    push_all(&mut v, &decimal_chars(start));
    push_str(&mut v, "-");
    from_chars(&v)
}

/// How a download goes on when `resume_from` bytes are already in the
/// partial file at `part_path` and the object has `total` bytes (where
/// known): a partial file larger than the object is refused, one of its
/// size is complete, otherwise the rest is fetched.
pub fn plan_download(total: Option<u64>, resume_from: u64, part_path: &str) -> (r: Result<
    DownloadStep,
    Error,
>)
    ensures
        match total {
            Some(t) if resume_from > t => r matches Err(e) && e@ == ErrorModel::PartialTooLarge(
                part_path@,
            ),
            Some(t) if resume_from == t => r == Ok::<DownloadStep, Error>(
                DownloadStep::Complete { total: t },
            ),
            _ => r matches Ok(DownloadStep::Fetch { resume_from: from, range }) && from
                == resume_from && (resume_from > 0 ==> (range matches Some(h) && h@
                == spec_range_header(resume_from as nat))) && (resume_from == 0 ==> range is None),
        },
{
    if let Some(t) = total {
        if resume_from > t {
            return Err(Error::PartialTooLarge(part_path.to_owned()));
        }
        if resume_from == t {
            return Ok(DownloadStep::Complete { total: t });
        }
    }
    let range = if resume_from > 0 {
        Some(range_header(resume_from))
    } else {
        None
    };
    Ok(DownloadStep::Fetch { resume_from, range })
}

} // verus!
