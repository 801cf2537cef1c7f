//! What the shell prints: the help and the lines of a listing.

use vstd::prelude::*;

use crate::command::types::ExecMode;
use crate::s3::listing::RemoteEntry;
use crate::text::{from_chars, push_str, strings_view, to_chars};
use crate::ui::{
    blue, bold, dimmed, spec_is_archive_name, stdout_dir, stdout_dir_label, stdout_file,
    stdout_size, stdout_time, cyan, magenta,
};
use crate::text::{pad_left, pad_right};

verus! {

/// The help's lines: the shell's commands, or the command line's.
pub open spec fn spec_help_lines(mode: ExecMode) -> Seq<Seq<char>> {
    match mode {
        ExecMode::Interactive => seq![
            "ls [path]"@,
            "cd [path]"@,
            "pwd"@,
            "mkdir <remote-dir>"@,
            "put [-r] <local> [remote]"@,
            "get [-r] <remote> [local]"@,
            "rm <remote>"@,
            "rm -r <remote-dir>"@,
            "rm -r -y <remote-dir>"@,
            "!<command>"@,
            "Ctrl-D"@,
            "exit"@,
        ],
        ExecMode::NonInteractive => seq![
            "ls [<profile>[:/path]]"@,
            "mkdir <profile>:/path"@,
            "put [-r] <local> [<profile>:/path]"@,
            "get [-r] <profile>:/path [local]"@,
            "rm <profile>:/path"@,
            "rm -r -y <profile>:/path"@,
            "!<local command>"@,
        ],
    }
}

/// The lines of the help.
pub fn help_lines(mode: ExecMode) -> (r: Vec<String>)
    ensures
        strings_view(r@) == spec_help_lines(mode),
{
    let r = match mode {
        ExecMode::Interactive => vec![
            "ls [path]".to_owned(),
            "cd [path]".to_owned(),
            "pwd".to_owned(),
            "mkdir <remote-dir>".to_owned(),
            "put [-r] <local> [remote]".to_owned(),
            "get [-r] <remote> [local]".to_owned(),
            "rm <remote>".to_owned(),
            "rm -r <remote-dir>".to_owned(),
            "rm -r -y <remote-dir>".to_owned(),
            "!<command>".to_owned(),
            "Ctrl-D".to_owned(),
            "exit".to_owned(),
        ],
        ExecMode::NonInteractive => vec![
            "ls [<profile>[:/path]]".to_owned(),
            "mkdir <profile>:/path".to_owned(),
            "put [-r] <local> [<profile>:/path]".to_owned(),
            "get [-r] <profile>:/path [local]".to_owned(),
            "rm <profile>:/path".to_owned(),
            "rm -r -y <profile>:/path".to_owned(),
            "!<local command>".to_owned(),
        ],
    };
    proof {
        assert(strings_view(r@) =~= spec_help_lines(mode));
    }
    r
}

/// The directory-size column of a listing.
pub open spec fn dir_label(colors: bool) -> Seq<char> {
    if colors {
        bold(blue(pad_left("DIR"@, 10)))
    } else {
        pad_left("DIR"@, 10)
    }
}

/// A time column of a listing.
pub open spec fn time_col(t: Seq<char>, colors: bool) -> Seq<char> {
    if colors {
        dimmed(pad_right(t, 12))
    } else {
        pad_right(t, 12)
    }
}

/// A size column of a listing.
pub open spec fn size_col(t: Seq<char>, colors: bool) -> Seq<char> {
    if colors {
        dimmed(pad_left(t, 10))
    } else {
        pad_left(t, 10)
    }
}

/// A file name in a listing.
pub open spec fn file_col(name: Seq<char>, colors: bool) -> Seq<char> {
    if spec_is_archive_name(name) && colors {
        magenta(name)
    } else {
        name
    }
}

/// A directory name in a listing.
pub open spec fn dir_col(name: Seq<char>, colors: bool) -> Seq<char> {
    if colors {
        blue(name)
    } else {
        name
    }
}

/// The line of one entry of a listing: a directory shows `DIR`, its time
/// and its name with a `/`; a file its size (`size_text`, the size in
/// human units), its time and its name, leaving out what it lacks.
pub open spec fn spec_listing_line(
    name: Seq<char>,
    is_dir: bool,
    has_size: bool,
    modified: Option<Seq<char>>,
    size_text: Seq<char>,
    colors: bool,
) -> Seq<char> {
    if is_dir {
        let t = match modified {
            Some(m) => m,
            None => Seq::<char>::empty(),
        };
        dir_label(colors) + "  "@ + time_col(t, colors) + "  "@ + dir_col(name.push('/'), colors)
    } else if has_size {
        match modified {
            Some(m) => size_col(size_text, colors) + "  "@ + time_col(m, colors) + "  "@
                + file_col(name, colors),
            None => size_col(size_text, colors) + "  "@ + file_col(name, colors),
        }
    } else {
        file_col(name, colors)
    }
}

/// The line that shows `entry` in a listing. `size_text` is its size in
/// human units, used where it has a size.
pub fn listing_line(entry: &RemoteEntry, size_text: &str, colors: bool) -> (r: String)
    ensures
        r@ == spec_listing_line(
            entry.name@,
            entry.is_dir,
            entry.size is Some,
            crate::command::types::opt_str_view(entry.modified),
            size_text@,
            colors,
        ),
{
    let mut out: Vec<char> = Vec::new();
    if entry.is_dir {
        push_str(&mut out, stdout_dir_label("DIR", colors).as_str());
        push_str(&mut out, "  ");
        let t = match &entry.modified {
            Some(m) => stdout_time(m.as_str(), colors),
            None => stdout_time("", colors),
        };
        proof {
            if entry.modified is None {
                assert(""@ =~= Seq::<char>::empty()) by {
                    reveal_strlit("");
                }
            }
        }
        push_str(&mut out, t.as_str());
        push_str(&mut out, "  ");
        let mut name = to_chars(entry.name.as_str());
        name.push('/');
        push_str(&mut out, stdout_dir(from_chars(&name).as_str(), colors).as_str());
    } else if entry.size.is_some() {
        push_str(&mut out, stdout_size(size_text, colors).as_str());
        push_str(&mut out, "  ");
        match &entry.modified {
            Some(m) => {
                push_str(&mut out, stdout_time(m.as_str(), colors).as_str());
                push_str(&mut out, "  ");
            },
            None => {},
        }
        push_str(&mut out, stdout_file(entry.name.as_str(), colors).as_str());
    } else {
        push_str(&mut out, stdout_file(entry.name.as_str(), colors).as_str());
    }
    proof {
        assert(out@ =~= spec_listing_line(
            entry.name@,
            entry.is_dir,
            entry.size is Some,
            crate::command::types::opt_str_view(entry.modified),
            size_text@,
            colors,
        ));
    }
    from_chars(&out)
}

/// The profile names as `ls` prints them: each in cyan where colours are
/// on, two spaces between them.
pub open spec fn spec_profiles_line(names: Seq<Seq<char>>, colors: bool) -> Seq<char>
    decreases names.len(),
{
    if names.len() == 0 {
        Seq::<char>::empty()
    } else if names.len() == 1 {
        if colors {
            cyan(names[0])
        } else {
            names[0]
        }
    } else {
        spec_profiles_line(names.drop_last(), colors) + "  "@ + if colors {
            cyan(names.last())
        } else {
            names.last()
        }
    }
}

/// The line of profile names.
pub fn profiles_line(names: &Vec<String>, colors: bool) -> (r: String)
    ensures
        r@ == spec_profiles_line(strings_view(names@), colors),
{
    let ghost ns = strings_view(names@);
    let mut out: Vec<char> = Vec::new();
    let mut i: usize = 0;
    proof {
        assert(ns.take(0) =~= Seq::<Seq<char>>::empty());
    }
    while i < names.len()
        invariant
            i <= names@.len(),
            ns == strings_view(names@),
            out@ == spec_profiles_line(ns.take(i as int), colors),
        decreases names@.len() - i,
    {
        proof {
            assert(ns.take(i + 1).drop_last() =~= ns.take(i as int));
            assert(ns.take(i + 1).last() == ns[i as int]);
        }
        if i > 0 {
            push_str(&mut out, "  ");
        }
        push_str(&mut out, crate::ui::stdout_profile(names[i].as_str(), colors).as_str());
        proof {
            if i == 0 {
                assert(ns.take(1)[0] == ns[0]);
            }
        }
        i = i + 1;
    }
    proof {
        assert(ns.take(names@.len() as int) =~= ns);
    }
    from_chars(&out)
}

} // verus!
