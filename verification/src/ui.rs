//! How the shell styles what it prints: the prompt, the status labels of
//! transfers and the columns of a listing. Whether colours are on is the
//! caller's to tell (`NO_COLOR`, a dumb terminal, or output that is not a
//! terminal turn them off).

use owo_colors::OwoColorize;
use vstd::prelude::*;

use crate::text::{
    ascii_lower, ascii_lowercase, chars_eq_str, ends_with, find_first, find_first_char, from_chars,
    has_suffix, pad_left, pad_left_chars, pad_right, pad_right_chars, push_str, sub_chars,
    to_chars,
};

verus! {

// ---------------------------------------------------------------------------
// The styles of `owo_colors`
// ---------------------------------------------------------------------------

/// `text.cyan()` as text: `OwoColorize::cyan` writes `ESC[36m`, the text and
/// `ESC[39m`.
#[verifier::external_body]
fn paint_cyan(text: &str) -> (r: String)
    ensures
        r@ == "\x1b[36m"@ + text@ + "\x1b[39m"@,
{
    text.cyan().to_string()
}

/// `text.blue()` as text: `ESC[34m`, the text, `ESC[39m`.
#[verifier::external_body]
fn paint_blue(text: &str) -> (r: String)
    ensures
        r@ == "\x1b[34m"@ + text@ + "\x1b[39m"@,
{
    text.blue().to_string()
}

/// `text.green()` as text: `ESC[32m`, the text, `ESC[39m`.
#[verifier::external_body]
fn paint_green(text: &str) -> (r: String)
    ensures
        r@ == "\x1b[32m"@ + text@ + "\x1b[39m"@,
{
    text.green().to_string()
}

/// `text.yellow()` as text: `ESC[33m`, the text, `ESC[39m`.
#[verifier::external_body]
fn paint_yellow(text: &str) -> (r: String)
    ensures
        r@ == "\x1b[33m"@ + text@ + "\x1b[39m"@,
{
    text.yellow().to_string()
}

/// `text.magenta()` as text: `ESC[35m`, the text, `ESC[39m`.
#[verifier::external_body]
fn paint_magenta(text: &str) -> (r: String)
    ensures
        r@ == "\x1b[35m"@ + text@ + "\x1b[39m"@,
{
    text.magenta().to_string()
}

/// `text.bold()` as text: `OwoColorize::bold` writes `ESC[1m`, the text and
/// `ESC[0m`.
#[verifier::external_body]
fn paint_bold(text: &str) -> (r: String)
    ensures
        r@ == "\x1b[1m"@ + text@ + "\x1b[0m"@,
{
    text.bold().to_string()
}

/// `text.dimmed()` as text: `ESC[2m`, the text, `ESC[0m`.
#[verifier::external_body]
fn paint_dimmed(text: &str) -> (r: String)
    ensures
        r@ == "\x1b[2m"@ + text@ + "\x1b[0m"@,
{
    text.dimmed().to_string()
}

/// Cyan text.
pub open spec fn cyan(s: Seq<char>) -> Seq<char> {
    "\x1b[36m"@ + s + "\x1b[39m"@
}

/// Blue text.
pub open spec fn blue(s: Seq<char>) -> Seq<char> {
    "\x1b[34m"@ + s + "\x1b[39m"@
}

/// Green text.
pub open spec fn green(s: Seq<char>) -> Seq<char> {
    "\x1b[32m"@ + s + "\x1b[39m"@
}

/// Yellow text.
pub open spec fn yellow(s: Seq<char>) -> Seq<char> {
    "\x1b[33m"@ + s + "\x1b[39m"@
}

/// Magenta text.
pub open spec fn magenta(s: Seq<char>) -> Seq<char> {
    "\x1b[35m"@ + s + "\x1b[39m"@
}

/// Bold text.
pub open spec fn bold(s: Seq<char>) -> Seq<char> {
    "\x1b[1m"@ + s + "\x1b[0m"@
}

/// Dimmed text.
pub open spec fn dimmed(s: Seq<char>) -> Seq<char> {
    "\x1b[2m"@ + s + "\x1b[0m"@
}

// ---------------------------------------------------------------------------
// The prompt
// ---------------------------------------------------------------------------

/// The prompt with colours: `bucketctl` and a profile in cyan, the remote
/// directory in blue, the closing `> ` dimmed. Without colours, or for a
/// prompt of another shape, the prompt as it is.
pub open spec fn spec_colorize_prompt(prompt: Seq<char>, colors: bool) -> Seq<char> {
    if !colors {
        prompt
    } else if prompt == "bucketctl> "@ {
        cyan("bucketctl"@) + dimmed("> "@)
    } else if has_suffix(prompt, "> "@) {
        let prefix = prompt.take(prompt.len() - 2);
        match find_first(prefix, ':') {
            Some(i) => cyan(prefix.take(i)) + seq![':'] + blue(prefix.skip(i + 1)) + dimmed(
                "> "@,
            ),
            None => cyan(prefix) + dimmed("> "@),
        }
    } else {
        prompt
    }
}

/// The prompt with colours where they are on.
pub fn colorize_prompt(prompt: &str, colors: bool) -> (r: String)
    ensures
        r@ == spec_colorize_prompt(prompt@, colors),
{
    if !colors {
        return prompt.to_owned();
    }
    let p = to_chars(prompt);
    if chars_eq_str(&p, "bucketctl> ") {
        let mut out = to_chars(paint_cyan("bucketctl").as_str());
        push_str(&mut out, paint_dimmed("> ").as_str());
        return from_chars(&out);
    }
    let mut tail: Vec<char> = Vec::new();
    tail.push('>');
    tail.push(' ');
    proof {
        reveal_strlit("> ");
        assert(tail@ =~= "> "@);
    }
    if !ends_with(&p, &tail) {
        return prompt.to_owned();
    }
    let prefix = sub_chars(&p, 0, p.len() - 2);
    proof {
        assert(prefix@ =~= prompt@.take(prompt@.len() - 2));
    }
    match find_first_char(&prefix, ':') {
        Some(i) => {
            let profile = from_chars(&sub_chars(&prefix, 0, i));
            let path = from_chars(&sub_chars(&prefix, i + 1, prefix.len()));
            let mut out = to_chars(paint_cyan(profile.as_str()).as_str());
            out.push(':');
            push_str(&mut out, paint_blue(path.as_str()).as_str());
            push_str(&mut out, paint_dimmed("> ").as_str());
            proof {
                assert(profile@ =~= prefix@.take(i as int));
                assert(path@ =~= prefix@.skip(i + 1));
                assert(out@ =~= cyan(prefix@.take(i as int)) + seq![':'] + blue(prefix@.skip(i + 1))
                    + dimmed("> "@));
            }
            from_chars(&out)
        },
        None => {
            let mut out = to_chars(paint_cyan(from_chars(&prefix).as_str()).as_str());
            push_str(&mut out, paint_dimmed("> ").as_str());
            from_chars(&out)
        },
    }
}

// ---------------------------------------------------------------------------
// Status labels (on the error stream)
// ---------------------------------------------------------------------------

/// A status label: `colored` where colours are on, else the text
/// right-aligned in 11 columns.
pub fn status_label(text: &str, color_enabled: bool, colored: String) -> (r: String)
    ensures
        color_enabled ==> r == colored,
        !color_enabled ==> r@ == pad_left(text@, 11),
{
    let plain = from_chars(&pad_left_chars(&to_chars(text), 11));
    if color_enabled {
        colored
    } else {
        plain
    }
}

/// A label right-aligned in 11 columns, bold and in a colour where colours
/// are on.
pub open spec fn spec_status(text: Seq<char>, color: spec_fn(Seq<char>) -> Seq<char>, colors: bool) -> Seq<
    char,
> {
    if colors {
        bold(color(pad_left(text, 11)))
    } else {
        pad_left(text, 11)
    }
}

/// `Done`, in bold green.
pub fn status_done(colors: bool) -> (r: String)
    ensures
        r@ == spec_status("Done"@, |s: Seq<char>| green(s), colors),
{
    if colors {
        let padded = from_chars(&pad_left_chars(&to_chars("Done"), 11));
        status_label("Done", true, paint_bold(paint_green(padded.as_str()).as_str()))
    } else {
        status_label("Done", false, String::new())
    }
}

/// `Cancelled`, in bold yellow.
pub fn status_cancelled(colors: bool) -> (r: String)
    ensures
        r@ == spec_status("Cancelled"@, |s: Seq<char>| yellow(s), colors),
{
    if colors {
        let padded = from_chars(&pad_left_chars(&to_chars("Cancelled"), 11));
        status_label("Cancelled", true, paint_bold(paint_yellow(padded.as_str()).as_str()))
    } else {
        status_label("Cancelled", false, String::new())
    }
}

/// `Uploading`, in bold cyan.
pub fn status_uploading(colors: bool) -> (r: String)
    ensures
        r@ == spec_status("Uploading"@, |s: Seq<char>| cyan(s), colors),
{
    if colors {
        let padded = from_chars(&pad_left_chars(&to_chars("Uploading"), 11));
        status_label("Uploading", true, paint_bold(paint_cyan(padded.as_str()).as_str()))
    } else {
        status_label("Uploading", false, String::new())
    }
}

/// `Downloading`, in bold cyan.
pub fn status_downloading(colors: bool) -> (r: String)
    ensures
        r@ == spec_status("Downloading"@, |s: Seq<char>| cyan(s), colors),
{
    if colors {
        let padded = from_chars(&pad_left_chars(&to_chars("Downloading"), 11));
        status_label("Downloading", true, paint_bold(paint_cyan(padded.as_str()).as_str()))
    } else {
        status_label("Downloading", false, String::new())
    }
}

// ---------------------------------------------------------------------------
// Listing columns (on standard output)
// ---------------------------------------------------------------------------

/// A directory name, blue where colours are on.
pub fn stdout_dir(text: &str, colors: bool) -> (r: String)
    ensures
        r@ == if colors {
            blue(text@)
        } else {
            text@
        },
{
    if colors {
        paint_blue(text)
    } else {
        text.to_owned()
    }
}

/// The label of a directory in the size column: right-aligned in 10
/// columns, bold blue where colours are on.
pub fn stdout_dir_label(text: &str, colors: bool) -> (r: String)
    ensures
        r@ == if colors {
            bold(blue(pad_left(text@, 10)))
        } else {
            pad_left(text@, 10)
        },
{
    let plain = from_chars(&pad_left_chars(&to_chars(text), 10));
    if colors {
        paint_bold(paint_blue(plain.as_str()).as_str())
    } else {
        plain
    }
}

/// A size: right-aligned in 10 columns, dimmed where colours are on.
pub fn stdout_size(text: &str, colors: bool) -> (r: String)
    ensures
        r@ == if colors {
            dimmed(pad_left(text@, 10))
        } else {
            pad_left(text@, 10)
        },
{
    let plain = from_chars(&pad_left_chars(&to_chars(text), 10));
    if colors {
        paint_dimmed(plain.as_str())
    } else {
        plain
    }
}

/// A time: left-aligned in 12 columns, dimmed where colours are on.
pub fn stdout_time(text: &str, colors: bool) -> (r: String)
    ensures
        r@ == if colors {
            dimmed(pad_right(text@, 12))
        } else {
            pad_right(text@, 12)
        },
{
    let plain = from_chars(&pad_right_chars(&to_chars(text), 12));
    if colors {
        paint_dimmed(plain.as_str())
    } else {
        plain
    }
}

/// The suffixes of archive files, lower case.
pub open spec fn archive_suffixes() -> Seq<Seq<char>> {
    seq![
        ".7z"@,
        ".bz2"@,
        ".gz"@,
        ".iso"@,
        ".rar"@,
        ".tar"@,
        ".tgz"@,
        ".txz"@,
        ".xz"@,
        ".zip"@,
        ".zst"@,
        ".tar.gz"@,
        ".tar.bz2"@,
        ".tar.xz"@,
        ".tar.zst"@,
    ]
}

/// The name of an archive: it ends, in any case, in an archive suffix.
pub open spec fn spec_is_archive_name(name: Seq<char>) -> bool {
    exists|i: int|
        0 <= i < archive_suffixes().len() && has_suffix(ascii_lower(name), #[trigger] archive_suffixes()[i])
}

/// Whether `name` is that of an archive.
pub fn is_archive_name(name: &str) -> (r: bool)
    ensures
        r == spec_is_archive_name(name@),
{
    let lower = ascii_lowercase(&to_chars(name));
    let suffixes: [&str; 15] = [
        ".7z",
        ".bz2",
        ".gz",
        ".iso",
        ".rar",
        ".tar",
        ".tgz",
        ".txz",
        ".xz",
        ".zip",
        ".zst",
        ".tar.gz",
        ".tar.bz2",
        ".tar.xz",
        ".tar.zst",
    ];
    proof {
        assert(suffixes@.map_values(|s: &str| s@) =~= archive_suffixes());
    }
    let mut i: usize = 0;
    while i < 15
        invariant
            i <= 15,
            suffixes@.len() == 15,
            suffixes@.map_values(|s: &str| s@) == archive_suffixes(),
            lower@ == ascii_lower(name@),
            forall|j: int| 0 <= j < i ==> !has_suffix(lower@, #[trigger] archive_suffixes()[j]),
        decreases 15 - i,
    {
        let suffix = to_chars(suffixes[i]);
        proof {
            assert(suffix@ == archive_suffixes()[i as int]);
        }
        if ends_with(&lower, &suffix) {
            return true;
        }
        i = i + 1;
    }
    false
}

/// A file name, magenta for an archive where colours are on.
pub fn stdout_file(text: &str, colors: bool) -> (r: String)
    ensures
        r@ == if spec_is_archive_name(text@) && colors {
            magenta(text@)
        } else {
            text@
        },
{
    if is_archive_name(text) && colors {
        paint_magenta(text)
    } else {
        text.to_owned()
    }
}

/// A profile name, cyan where colours are on.
pub fn stdout_profile(text: &str, colors: bool) -> (r: String)
    ensures
        r@ == if colors {
            cyan(text@)
        } else {
            text@
        },
{
    if colors {
        paint_cyan(text)
    } else {
        text.to_owned()
    }
}

} // verus!
