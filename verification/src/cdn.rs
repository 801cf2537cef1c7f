//! Downloads through a profile's CDN domain: the base URL, the URL of an
//! object, and what a response to a (resumed) download request means.

use vstd::prelude::*;

use crate::command::types::opt_str_view;
use crate::config::ProfileConfig;
use crate::error::{Error, ErrorModel};
use crate::remote_path::{split_on, split_string};
use crate::s3::keys::{normalize_key, spec_normalize_key};
use crate::text::{
    find_last, find_last_char, from_chars, has_prefix, parse_u64, push_str, spec_parse_u64,
    starts_with, strings_view, sub_chars, to_chars, trim_end_ch, trim_end_char, trim_whitespace,
    trim_ws,
};

verus! {

// ---------------------------------------------------------------------------
// URLs (the `url` crate, as `reqwest` exports it)
// ---------------------------------------------------------------------------

/// What `Url::parse` makes of `text`, serialized; `None` where it refuses it.
pub uninterp spec fn url_parse(text: Seq<char>) -> Option<Seq<char>>;

/// `reqwest::Url::parse`, the URL given back as its serialization. The
/// contract names the result and ties it to the text; the URL grammar is
/// left to the `url` crate.
#[verifier::external_body]
fn parse_url(text: &str) -> (r: Option<String>)
    ensures
        opt_str_view(r) == url_parse(text@),
{
    match reqwest::Url::parse(text) {
        Ok(url) => Some(url.to_string()),
        Err(_) => None,
    }
}

/// The URL `base` with `segments` appended to its path (an empty last
/// segment dropped first, each segment percent-encoded, `.` and `..`
/// skipped), serialized; `None` where `base` cannot be a base.
pub uninterp spec fn url_append_segments(base: Seq<char>, segments: Seq<Seq<char>>) -> Option<
    Seq<char>,
>;

/// `PathSegmentsMut::pop_if_empty` then `extend` on the URL `base`. The
/// contract names the result and ties it to the URL and the segments; the
/// encoding is left to the `url` crate.
#[verifier::external_body]
fn append_url_segments(base: &str, segments: &Vec<String>) -> (r: Option<String>)
    ensures
        opt_str_view(r) == url_append_segments(base@, strings_view(segments@)),
{
    let mut url = match reqwest::Url::parse(base) {
        Ok(url) => url,
        Err(_) => return None,
    };
    match url.path_segments_mut() {
        Ok(mut path) => {
            path.pop_if_empty().extend(segments);
        },
        Err(_) => return None,
    }
    Some(url.to_string())
}

// ---------------------------------------------------------------------------
// The backend
// ---------------------------------------------------------------------------

/// Where a profile's objects are downloaded from: the CDN's base URL.
#[derive(Debug, Clone, PartialEq, Eq)]
pub struct CdnBackend {
    /// The base URL, serialized.
    pub base: String,
}

/// `cdn_domain` as it is used: without surrounding whitespace and trailing
/// `/`.
pub open spec fn spec_cdn_domain(domain: Seq<char>) -> Seq<char> {
    trim_end_ch(trim_ws(domain), '/')
}

/// The base URL of a profile's CDN: none without `cdn_domain`; the domain
/// must start with `http://` or `https://` and, with a `/` appended, parse
/// as a URL.
pub open spec fn spec_cdn_base(domain: Option<Seq<char>>) -> Result<Option<Seq<char>>, ErrorModel> {
    match domain {
        None => Ok(None),
        Some(d) => {
            let t = spec_cdn_domain(d);
            if !has_prefix(t, "http://"@) && !has_prefix(t, "https://"@) {
                Err(ErrorModel::CdnScheme(t))
            } else {
                match url_parse(t.push('/')) {
                    Some(u) => Ok(Some(u)),
                    None => Err(ErrorModel::InvalidCdnDomain(t)),
                }
            }
        },
    }
}

impl CdnBackend {
    /// The CDN of a profile, where it sets `cdn_domain`.
    pub fn from_profile(profile: &ProfileConfig) -> (r: Result<Option<CdnBackend>, Error>)
        ensures
            match r {
                Ok(Some(c)) => spec_cdn_base(opt_str_view(profile.cdn_domain)) == Ok::<
                    Option<Seq<char>>,
                    ErrorModel,
                >(Some(c.base@)),
                Ok(None) => spec_cdn_base(opt_str_view(profile.cdn_domain)) == Ok::<
                    Option<Seq<char>>,
                    ErrorModel,
                >(None),
                Err(e) => spec_cdn_base(opt_str_view(profile.cdn_domain)) == Err::<
                    Option<Seq<char>>,
                    ErrorModel,
                >(e@),
            },
    {
        let domain = match &profile.cdn_domain {
            Some(d) => d,
            None => return Ok(None),
        };
        let t = trim_end_char(&trim_whitespace(&to_chars(domain.as_str())), '/');
        let mut http: Vec<char> = Vec::new();
        push_str(&mut http, "http://");
        let mut https: Vec<char> = Vec::new();
        push_str(&mut https, "https://");
        if !starts_with(&t, &http) && !starts_with(&t, &https) {
            return Err(Error::CdnScheme(from_chars(&t)));
        }
        let mut with_slash = t.clone();
        with_slash.push('/');
        match parse_url(from_chars(&with_slash).as_str()) {
            Some(u) => Ok(Some(CdnBackend { base: u })),
            None => Err(Error::InvalidCdnDomain(from_chars(&t))),
        }
    }

    /// The URL of the object at `key`: its `/`-separated segments appended
    /// to the base URL's path.
    pub fn object_url(&self, key: &str) -> (r: Result<String, Error>)
        ensures
            match url_append_segments(self.base@, split_on(spec_normalize_key(key@), '/')) {
                Some(u) => r matches Ok(s) && s@ == u,
                None => r matches Err(e) && e@ == ErrorModel::CdnNotBase(self.base@),
            },
    {
        let normalized = normalize_key(key);
        let segments = split_string(normalized.as_str(), '/');
        match append_url_segments(self.base.as_str(), &segments) {
            Some(u) => Ok(u),
            None => Err(Error::CdnNotBase(self.base.clone())),
        }
    }
}

// ---------------------------------------------------------------------------
// Responses
// ---------------------------------------------------------------------------

/// The size a `Content-Length` header gives.
pub fn content_length(value: Option<&str>) -> (r: Option<u64>)
    ensures
        r == match value {
            Some(v) => spec_parse_u64(v@),
            None => None,
        },
{
    match value {
        Some(v) => parse_u64(v),
        None => None,
    }
}

/// The complete size in a `Content-Range` header: what follows its last `/`.
pub open spec fn spec_range_total(value: Seq<char>) -> Option<u64> {
    match find_last(value, '/') {
        Some(i) => spec_parse_u64(value.skip(i + 1)),
        None => spec_parse_u64(value),
    }
}

/// The complete size a `Content-Range` header gives.
pub fn content_range_total(value: Option<&str>) -> (r: Option<u64>)
    ensures
        r == match value {
            Some(v) => spec_range_total(v@),
            None => None,
        },
{
    let v = match value {
        Some(v) => v,
        None => return None,
    };
    let c = to_chars(v);
    let n = c.len();
    match find_last_char(&c, '/') {
        Some(i) => {
            assert(i < n);
            let tail = sub_chars(&c, i + 1, n);
            proof {
                assert(tail@ =~= v@.skip(i + 1));
            }
            parse_u64(from_chars(&tail).as_str())
        },
        None => parse_u64(v),
    }
}

/// What a download goes on with after the CDN's answer.
#[derive(Debug, Clone, Copy, PartialEq, Eq, Structural)]
pub enum CdnDownload {
    /// Write the body to the partial file from byte `resume_from` on; the
    /// object's size where it is known.
    Write { resume_from: u64, total: Option<u64> },
    /// The partial file already holds the whole object (`total` bytes).
    Complete { total: u64 },
}

/// What the CDN's answer `status` to a request from byte `resume_from`
/// means. `range_total` and `length` are the sizes in the `Content-Range`
/// and `Content-Length` headers. A full answer starts over; a partial one
/// goes on; 416 means done when the partial file is complete.
pub open spec fn spec_cdn_step(
    key: Seq<char>,
    part_path: Seq<char>,
    status: u16,
    resume_from: u64,
    range_total: Option<u64>,
    length: Option<u64>,
) -> Result<CdnDownload, ErrorModel> {
    if status == 200 {
        Ok(
            CdnDownload::Write {
                resume_from: 0,
                total: match range_total {
                    Some(t) => Some(t),
                    None => length,
                },
            },
        )
    } else if status == 206 {
        Ok(
            CdnDownload::Write {
                resume_from,
                total: match range_total {
                    Some(t) => Some(t),
                    None => match length {
                        Some(l) => Some((l + resume_from) as u64),
                        None => None,
                    },
                },
            },
        )
    } else if status == 416 {
        match range_total {
            Some(t) => if resume_from == t {
                Ok(CdnDownload::Complete { total: t })
            } else if resume_from > t {
                Err(ErrorModel::PartialTooLarge(part_path))
            } else {
                Err(ErrorModel::CdnRangeNotSatisfiable(key))
            },
            None => Err(ErrorModel::CdnRangeNotSatisfiable(key)),
        }
    } else if status == 404 {
        Err(ErrorModel::RemoteNotFound(key))
    } else if status == 403 {
        Err(ErrorModel::CdnForbidden(key))
    } else {
        Err(ErrorModel::CdnStatus(key, status))
    }
}

/// What the CDN's answer to a download request means. A partial answer
/// without a complete size must leave room for the size it implies.
pub fn cdn_response_step(
    key: &str,
    part_path: &str,
    status: u16,
    resume_from: u64,
    range_total: Option<u64>,
    length: Option<u64>,
) -> (r: Result<CdnDownload, Error>)
    requires
        status == 206 && range_total is None && length is Some ==> length->0 + resume_from
            <= u64::MAX,
    ensures
        match r {
            Ok(step) => spec_cdn_step(key@, part_path@, status, resume_from, range_total, length)
                == Ok::<CdnDownload, ErrorModel>(step),
            Err(e) => spec_cdn_step(key@, part_path@, status, resume_from, range_total, length)
                == Err::<CdnDownload, ErrorModel>(e@),
        },
{
    if status == 200 {
        let total = match range_total {
            Some(t) => Some(t),
            None => length,
        };
        Ok(CdnDownload::Write { resume_from: 0, total })
    } else if status == 206 {
        let total = match range_total {
            Some(t) => Some(t),
            None => match length {
                Some(l) => Some(l + resume_from),
                None => None,
            },
        };
        Ok(CdnDownload::Write { resume_from, total })
    } else if status == 416 {
        match range_total {
            Some(t) => {
                if resume_from == t {
                    Ok(CdnDownload::Complete { total: t })
                } else if resume_from > t {
                    Err(Error::PartialTooLarge(part_path.to_owned()))
                } else {
                    Err(Error::CdnRangeNotSatisfiable(key.to_owned()))
                }
            },
            None => Err(Error::CdnRangeNotSatisfiable(key.to_owned())),
        }
    } else if status == 404 {
        Err(Error::RemoteNotFound(key.to_owned()))
    } else if status == 403 {
        Err(Error::CdnForbidden(key.to_owned()))
    } else {
        Err(Error::CdnStatus(key.to_owned(), status))
    }
}

/// The message of a failed request to a host: a failed connection, a
/// timeout, or another failure with its description.
pub open spec fn spec_http_error_message(
    host: Option<Seq<char>>,
    is_connect: bool,
    is_timeout: bool,
    detail: Seq<char>,
) -> Seq<char> {
    let h = match host {
        Some(h) => h,
        None => "cdn"@,
    };
    if is_connect {
        "failed to connect to "@ + h
    } else if is_timeout {
        "request to "@ + h + " timed out"@
    } else {
        "cdn request to "@ + h + " failed: "@ + detail
    }
}

/// The message of a failed request to the CDN's host (`cdn` where the URL
/// has none).
pub fn http_error_message(host: Option<&str>, is_connect: bool, is_timeout: bool, detail: &str) -> (r:
    String)
    ensures
        r@ == spec_http_error_message(
            crate::command::parse::opt_str_view(host),
            is_connect,
            is_timeout,
            detail@,
        ),
{
    let h = match host {
        Some(h) => h,
        None => "cdn",
    };
    let mut out: Vec<char> = Vec::new();
    if is_connect {
        push_str(&mut out, "failed to connect to ");
        push_str(&mut out, h);
    } else if is_timeout {
        push_str(&mut out, "request to ");
        push_str(&mut out, h);
        push_str(&mut out, " timed out");
    } else {
        push_str(&mut out, "cdn request to ");
        push_str(&mut out, h);
        push_str(&mut out, " failed: ");
        push_str(&mut out, detail);
    }
    from_chars(&out)
}

} // verus!
