//! Tab completion in the shell: how the word being typed splits into the
//! directory to look in and the start of the name, and which names are
//! offered.

use vstd::prelude::*;

use crate::command::parse::{shell_words, shlex_words};
use crate::key_set::{itself, sort_strings, sorted};
use crate::local_path::{final_tail, parent_and_name, parent_of_name, Tail};
use crate::s3::listing::{entries_view, EntryModel, RemoteEntry};
use crate::sorting::group;
use crate::text::{
    chars_eq_str, is_whitespace, is_ws, ends_with_ch, ends_with_char, find_last, find_last_char, from_chars, has_prefix, push_all,
    starts_with, starts_with_ch, starts_with_char, strings_view, sub_chars, to_chars, trim_end_ch, trim_end_char,
};

verus! {

// ---------------------------------------------------------------------------
// Remote names
// ---------------------------------------------------------------------------

/// How a remote word splits at its last `/`: the directory to list, the
/// start of the name, and what the completed names are prefixed with.
pub open spec fn spec_split_remote(current: Seq<char>) -> (Seq<char>, Seq<char>, Seq<char>) {
    match find_last(current, '/') {
        Some(i) => {
            let parent = current.take(i);
            let needle = current.skip(i + 1);
            let base = if starts_with_ch(current, '/') && parent.len() == 0 {
                seq!['/']
            } else {
                parent.push('/')
            };
            (parent, needle, base)
        },
        None => (Seq::<char>::empty(), current, Seq::<char>::empty()),
    }
}

/// How the remote word being completed splits: `(parent, needle, base)`.
pub fn split_remote_completion(current: &str) -> (r: (String, String, String))
    ensures
        (r.0@, r.1@, r.2@) == spec_split_remote(current@),
{
    let c = to_chars(current);
    let len = c.len();
    match find_last_char(&c, '/') {
        Some(i) => {
            assert(i < len);
            let parent = sub_chars(&c, 0, i);
            let needle = sub_chars(&c, i + 1, c.len());
            let base = if i == 0 && c[0] == '/' {
                let mut b: Vec<char> = Vec::new();
                b.push('/');
                b
            } else {
                let mut b = sub_chars(&c, 0, i);
                b.push('/');
                b
            };
            proof {
                assert(parent@ =~= c@.take(i as int));
                assert(needle@ =~= c@.skip(i + 1));
                if i == 0 {
                    assert(starts_with_ch(c@, '/'));
                }
            }
            (from_chars(&parent), from_chars(&needle), from_chars(&base))
        },
        None => (String::new(), current.to_owned(), String::new()),
    }
}

/// A completion keeps what was typed: the prefix that candidates start
/// with, followed by the start of the name, is the word being completed;
/// and the name's start holds no `/`.
pub proof fn law_split_remote_rebuilds_word(current: Seq<char>)
    ensures
        spec_split_remote(current).2 + spec_split_remote(current).1 == current,
        !spec_split_remote(current).1.contains('/'),
{
    crate::text::lemma_find_last(current, '/');
    match find_last(current, '/') {
        Some(i) => {
            let parent = current.take(i);
            let needle = current.skip(i + 1);
            assert(parent.push('/') + needle =~= current);
            if starts_with_ch(current, '/') && parent.len() == 0 {
                assert(parent.push('/') =~= seq!['/']);
            }
            if needle.contains('/') {
                let k = choose|k: int| 0 <= k < needle.len() && needle[k] == '/';
                assert(current[i + 1 + k] == '/');
            }
        },
        None => {
            assert(Seq::<char>::empty() + current =~= current);
            if current.contains('/') {
                let k = choose|k: int| 0 <= k < current.len() && current[k] == '/';
                crate::text::lemma_find_first(current, '/');
            }
        },
    }
}

/// The completions offered from a remote listing: the entries whose names
/// start with `needle` (only directories where `dirs_only`), each as `base`
/// and its name, with a `/` after a directory.
pub open spec fn spec_remote_candidates(
    entries: Seq<EntryModel>,
    needle: Seq<char>,
    base: Seq<char>,
    dirs_only: bool,
) -> Seq<Seq<char>>
    decreases entries.len(),
{
    if entries.len() == 0 {
        Seq::<Seq<char>>::empty()
    } else {
        let rest = spec_remote_candidates(entries.drop_last(), needle, base, dirs_only);
        let e = entries.last();
        if (!dirs_only || e.is_dir) && has_prefix(e.name, needle) {
            rest.push(
                if e.is_dir {
                    (base + e.name).push('/')
                } else {
                    base + e.name
                },
            )
        } else {
            rest
        }
    }
}

/// The completions offered from a remote listing, in listing order.
pub fn remote_candidates(entries: &Vec<RemoteEntry>, needle: &str, base: &str, dirs_only: bool) -> (r:
    Vec<String>)
    ensures
        strings_view(r@) == spec_remote_candidates(entries_view(entries@), needle@, base@, dirs_only),
{
    let nc = to_chars(needle);
    let mut out: Vec<String> = Vec::new();
    let mut i: usize = 0;
    while i < entries.len()
        invariant
            i <= entries@.len(),
            nc@ == needle@,
            strings_view(out@) == spec_remote_candidates(
                entries_view(entries@).take(i as int),
                needle@,
                base@,
                dirs_only,
            ),
        decreases entries@.len() - i,
    {
        let e = &entries[i];
        let name = to_chars(e.name.as_str());
        proof {
            let t = entries_view(entries@).take(i + 1);
            assert(t.drop_last() =~= entries_view(entries@).take(i as int));
            assert(t.last() == e@);
        }
        if (!dirs_only || e.is_dir) && starts_with(&name, &nc) {
            let mut rep = to_chars(base);
            push_all(&mut rep, &name);
            if e.is_dir {
                rep.push('/');
            }
            let ghost before = strings_view(out@);
            out.push(from_chars(&rep));
            proof {
                assert(strings_view(out@) =~= before.push(rep@));
            }
        }
        i = i + 1;
    }
    proof {
        assert(entries_view(entries@).take(entries@.len() as int) =~= entries_view(entries@));
    }
    out
}

// ---------------------------------------------------------------------------
// Local names
// ---------------------------------------------------------------------------

/// How a local word splits into the directory to read and the start of the
/// name: a word ending in `/` is a directory; a word with a non-empty parent
/// splits there; anything else is looked up in `.`.
pub open spec fn spec_split_local(current: Seq<char>) -> (Seq<char>, Seq<char>) {
    if ends_with_ch(current, '/') {
        (trim_end_ch(current, '/'), Seq::<char>::empty())
    } else {
        match final_tail(current) {
            Tail::Name(s, e) => {
                let parent = parent_of_name(current, s);
                if parent.len() > 0 {
                    (parent, current.subrange(s, e))
                } else {
                    (seq!['.'], current)
                }
            },
            _ => (seq!['.'], current),
        }
    }
}

/// How the local word being completed splits: `(directory, start of name)`.
pub fn split_local_completion(current: &str) -> (r: (String, String))
    ensures
        (r.0@, r.1@) == spec_split_local(current@),
{
    let c = to_chars(current);
    if ends_with_char(&c, '/') {
        return (from_chars(&trim_end_char(&c, '/')), String::new());
    }
    let mut dot: Vec<char> = Vec::new();
    dot.push('.');
    match parent_and_name(current) {
        Some((parent, name)) => {
            if parent.as_str().is_empty() {
                (from_chars(&dot), current.to_owned())
            } else {
                (parent, name)
            }
        },
        None => (from_chars(&dot), current.to_owned()),
    }
}

/// The completions offered from a local directory's entries (each a name
/// and whether it is a directory): the names starting with `base`, a `/`
/// after a directory.
pub open spec fn spec_local_matches(entries: Seq<(Seq<char>, bool)>, base: Seq<char>) -> Seq<
    Seq<char>,
>
    decreases entries.len(),
{
    if entries.len() == 0 {
        Seq::<Seq<char>>::empty()
    } else {
        let rest = spec_local_matches(entries.drop_last(), base);
        let (name, is_dir) = entries.last();
        if has_prefix(name, base) {
            rest.push(
                if is_dir {
                    name.push('/')
                } else {
                    name
                },
            )
        } else {
            rest
        }
    }
}

/// The models of directory entries.
pub open spec fn dir_entries_view(v: Seq<(String, bool)>) -> Seq<(Seq<char>, bool)> {
    Seq::new(v.len(), |i: int| (v[i].0@, v[i].1))
}

/// The completions offered from a local directory, sorted.
pub fn local_candidates(entries: &Vec<(String, bool)>, base: &str) -> (r: Vec<String>)
    ensures
        sorted(strings_view(r@)),
        forall|k: Seq<char>| #[trigger]
            group(strings_view(r@), itself(), k) == group(
                spec_local_matches(dir_entries_view(entries@), base@),
                itself(),
                k,
            ),
{
    let bc = to_chars(base);
    let mut out: Vec<String> = Vec::new();
    let mut i: usize = 0;
    while i < entries.len()
        invariant
            i <= entries@.len(),
            bc@ == base@,
            strings_view(out@) == spec_local_matches(
                dir_entries_view(entries@).take(i as int),
                base@,
            ),
        decreases entries@.len() - i,
    {
        let name = to_chars(entries[i].0.as_str());
        let is_dir = entries[i].1;
        proof {
            let t = dir_entries_view(entries@).take(i + 1);
            assert(t.drop_last() =~= dir_entries_view(entries@).take(i as int));
            assert(t.last() == (name@, is_dir));
        }
        if starts_with(&name, &bc) {
            let mut cand = name;
            if is_dir {
                cand.push('/');
            }
            let ghost before = strings_view(out@);
            out.push(from_chars(&cand));
            proof {
                assert(strings_view(out@) =~= before.push(cand@));
            }
        }
        i = i + 1;
    }
    proof {
        assert(dir_entries_view(entries@).take(entries@.len() as int) =~= dir_entries_view(
            entries@,
        ));
    }
    sort_strings(out)
}

// ---------------------------------------------------------------------------
// What the completer does with a line
// ---------------------------------------------------------------------------

/// The length of text in UTF-8 bytes (as `str::len` gives it), the unit of
/// positions in a line.
pub open spec fn byte_len(s: Seq<char>) -> usize {
    vstd::utf8::encode_utf8(s).len() as usize
}

/// The words of `s` separated by whitespace (`split_whitespace`), and
/// whether the last one is still open.
pub open spec fn ws_scan(s: Seq<char>) -> (Seq<Seq<char>>, bool)
    decreases s.len(),
{
    if s.len() == 0 {
        (Seq::<Seq<char>>::empty(), false)
    } else {
        let (w, open) = ws_scan(s.drop_last());
        let c = s.last();
        if is_ws(c) {
            (w, false)
        } else if open && w.len() > 0 {
            (w.drop_last().push(w.last().push(c)), true)
        } else {
            (w.push(seq![c]), true)
        }
    }
}

/// The words of `s` separated by whitespace.
pub open spec fn ws_words(s: Seq<char>) -> Seq<Seq<char>> {
    ws_scan(s).0
}

/// The words of a line separated by whitespace (`str::split_whitespace`).
pub fn split_whitespace_words(line: &str) -> (r: Vec<String>)
    ensures
        strings_view(r@) == ws_words(line@),
{
    let c = to_chars(line);
    let mut words: Vec<String> = Vec::new();
    let mut cur: Vec<char> = Vec::new();
    let mut open = false;
    let mut i: usize = 0;
    while i < c.len()
        invariant
            i <= c@.len(),
            c@ == line@,
            open ==> cur@.len() > 0,
            !open ==> cur@.len() == 0,
            ({
                let (w, o) = ws_scan(c@.take(i as int));
                &&& o == open
                &&& if open {
                    w == strings_view(words@).push(cur@)
                } else {
                    w == strings_view(words@)
                }
            }),
        decreases c@.len() - i,
    {
        let ch = c[i];
        proof {
            assert(c@.take(i + 1).drop_last() =~= c@.take(i as int));
            assert(c@.take(i + 1).last() == ch);
        }
        if is_whitespace(ch) {
            if open {
                let ghost before = strings_view(words@);
                let ghost cv = cur@;
                words.push(from_chars(&cur));
                proof {
                    assert(strings_view(words@) =~= before.push(cv));
                }
                cur = Vec::new();
                open = false;
            }
        } else {
            let ghost w0 = ws_scan(c@.take(i as int)).0;
            let ghost was_open = open;
            let ghost cur0 = cur@;
            cur.push(ch);
            open = true;
            proof {
                let w1 = ws_scan(c@.take(i + 1)).0;
                if was_open {
                    assert(w0.drop_last() =~= strings_view(words@));
                    assert(w0.last() == cur0);
                    assert(w1 =~= strings_view(words@).push(cur@));
                } else {
                    assert(cur@ =~= seq![ch]);
                    assert(w1 =~= strings_view(words@).push(cur@));
                }
            }
        }
        i = i + 1;
    }
    proof {
        assert(c@.take(c@.len() as int) =~= c@);
    }
    if open {
        let ghost before = strings_view(words@);
        let ghost cv = cur@;
        words.push(from_chars(&cur));
        proof {
            assert(strings_view(words@) =~= before.push(cv));
        }
    }
    words
}

/// The words the completer works on: the line split as the shell splits
/// it, or by whitespace where the shell's rules refuse it.
pub open spec fn completion_words(line: Seq<char>) -> Seq<Seq<char>> {
    match shlex_words(line) {
        Some(w) => w,
        None => ws_words(line),
    }
}

/// The command names offered for the first word.
pub open spec fn command_names() -> Seq<Seq<char>> {
    seq!["help"@, "pwd"@, "ls"@, "cd"@, "put"@, "get"@, "rm"@, "mkdir"@, "exit"@]
}

/// The names of `names` that start with `p`, in order.
pub open spec fn names_with_prefix(names: Seq<Seq<char>>, p: Seq<char>) -> Seq<Seq<char>>
    decreases names.len(),
{
    if names.len() == 0 {
        Seq::<Seq<char>>::empty()
    } else {
        let rest = names_with_prefix(names.drop_last(), p);
        if has_prefix(names.last(), p) {
            rest.push(names.last())
        } else {
            rest
        }
    }
}

/// What completing a line comes to.
#[derive(Debug, Clone, PartialEq, Eq)]
pub enum CompletionPlan {
    /// These candidates, replacing from byte `start` of the line.
    Fixed { start: usize, candidates: Vec<String> },
    /// Local paths completing `word`; positions are offset by `offset`.
    Local { word: String, offset: usize },
    /// Remote paths completing `word` (directories only where `dirs_only`);
    /// positions are offset by `offset`.
    Remote { word: String, dirs_only: bool, offset: usize },
}

/// The model of [`CompletionPlan`].
pub ghost enum CompletionPlanModel {
    Fixed { start: nat, candidates: Seq<Seq<char>> },
    Local { word: Seq<char>, offset: nat },
    Remote { word: Seq<char>, dirs_only: bool, offset: nat },
}

impl View for CompletionPlan {
    type V = CompletionPlanModel;

    open spec fn view(&self) -> CompletionPlanModel {
        match self {
            CompletionPlan::Fixed { start, candidates } => CompletionPlanModel::Fixed {
                start: *start as nat,
                candidates: strings_view(candidates@),
            },
            CompletionPlan::Local { word, offset } => CompletionPlanModel::Local {
                word: word@,
                offset: *offset as nat,
            },
            CompletionPlan::Remote { word, dirs_only, offset } => CompletionPlanModel::Remote {
                word: word@,
                dirs_only: *dirs_only,
                offset: *offset as nat,
            },
        }
    }
}

/// The word being completed: empty after a space.
pub open spec fn current_word(line: Seq<char>, words: Seq<Seq<char>>) -> Seq<char> {
    if ends_with_ch(line, ' ') || words.len() == 0 {
        Seq::<char>::empty()
    } else {
        words.last()
    }
}

/// What completing `line` (split into `words`) comes to: after `!`, local
/// paths; in the first word, command names; then remote or local paths by
/// command and argument position.
pub open spec fn spec_completion_plan(line: Seq<char>, words: Seq<Seq<char>>) -> CompletionPlanModel {
    if starts_with_ch(line, '!') {
        CompletionPlanModel::Local { word: line.skip(1), offset: 1 }
    } else {
        let current = current_word(line, words);
        let argc = if ends_with_ch(line, ' ') {
            words.len() + 1
        } else {
            words.len()
        };
        let base = (byte_len(line) - byte_len(current)) as nat;
        let cmd = if words.len() > 0 {
            words[0]
        } else {
            Seq::<char>::empty()
        };
        if argc <= 1 {
            if current.len() == 0 {
                CompletionPlanModel::Fixed {
                    start: byte_len(line) as nat,
                    candidates: Seq::empty(),
                }
            } else {
                CompletionPlanModel::Fixed {
                    start: base,
                    candidates: names_with_prefix(command_names(), current),
                }
            }
        } else if cmd == "cd"@ || cmd == "mkdir"@ {
            CompletionPlanModel::Remote { word: current, dirs_only: true, offset: base }
        } else if cmd == "ls"@ || cmd == "get"@ || cmd == "rm"@ {
            CompletionPlanModel::Remote { word: current, dirs_only: false, offset: base }
        } else if cmd == "put"@ && argc == 2 {
            CompletionPlanModel::Local { word: current, offset: base }
        } else if cmd == "put"@ && argc == 3 {
            CompletionPlanModel::Remote { word: current, dirs_only: false, offset: base }
        } else {
            CompletionPlanModel::Fixed { start: base + base, candidates: Seq::empty() }
        }
    }
}

/// Past the first word, the path arguments of `ls`, `get`, `rm`, `cd` and
/// `mkdir` complete as remote paths, of directories alone exactly for `cd`
/// and `mkdir`; the word completed is the one being typed (empty after a
/// space), and it is replaced from where it begins.
pub proof fn law_remote_completion_dirs_only_for_cd_and_mkdir(
    line: Seq<char>,
    words: Seq<Seq<char>>,
)
    requires
        !starts_with_ch(line, '!'),
        words.len() >= 2 || (words.len() == 1 && ends_with_ch(line, ' ')),
        words[0] == "ls"@ || words[0] == "get"@ || words[0] == "rm"@ || words[0] == "cd"@
            || words[0] == "mkdir"@,
    ensures
        ({
            let typed = if ends_with_ch(line, ' ') {
                Seq::<char>::empty()
            } else {
                words.last()
            };
            spec_completion_plan(line, words) == CompletionPlanModel::Remote {
                word: typed,
                dirs_only: words[0] == "cd"@ || words[0] == "mkdir"@,
                offset: (byte_len(line) - byte_len(typed)) as nat,
            }
        }),
        words[0] == "ls"@ || words[0] == "get"@ || words[0] == "rm"@ ==> spec_completion_plan(
            line,
            words,
        ) matches CompletionPlanModel::Remote { dirs_only: false, .. },
{
    reveal_strlit("ls");
    reveal_strlit("get");
    reveal_strlit("rm");
    reveal_strlit("cd");
    reveal_strlit("mkdir");
    let c = words[0];
    if c == "ls"@ || c == "get"@ || c == "rm"@ {
        assert(c != "mkdir"@ && c != "cd"@) by {
            if c == "get"@ {
                assert(c.len() != "cd"@.len());
            } else {
                assert(c[0] != "cd"@[0]);
            }
        }
    }
}

/// Where a completion's replacement starts within the word being completed
/// (as byte positions): after the word's text that precedes `needle`, its
/// last part; at the start where `needle` is the longer.
pub fn completion_start(word: &str, needle: &str) -> (r: usize)
    ensures
        r == if byte_len(needle@) <= byte_len(word@) {
            (byte_len(word@) - byte_len(needle@)) as usize
        } else {
            0usize
        },
{
    let w = str_bytes(word);
    let n = str_bytes(needle);
    if n <= w {
        w - n
    } else {
        0
    }
}

/// The byte length of `s`.
fn str_bytes(s: &str) -> (r: usize)
    ensures
        r == byte_len(s@),
{
    s.len()
}

/// The command names starting with `current`.
fn matching_command_names(current: &str) -> (r: Vec<String>)
    ensures
        strings_view(r@) == names_with_prefix(command_names(), current@),
{
    let names: [&str; 9] = ["help", "pwd", "ls", "cd", "put", "get", "rm", "mkdir", "exit"];
    let cc = to_chars(current);
    let mut out: Vec<String> = Vec::new();
    let mut i: usize = 0;
    proof {
        reveal_strlit("help");
        reveal_strlit("pwd");
        reveal_strlit("ls");
        reveal_strlit("cd");
        reveal_strlit("put");
        reveal_strlit("get");
        reveal_strlit("rm");
        reveal_strlit("mkdir");
        reveal_strlit("exit");
        assert(names@.len() == 9);
        assert(names@.map_values(|n: &str| n@) =~= command_names());
    }
    while i < 9
        invariant
            i <= 9,
            cc@ == current@,
            names@.len() == 9,
            names@.map_values(|n: &str| n@) == command_names(),
            strings_view(out@) == names_with_prefix(command_names().take(i as int), current@),
        decreases 9 - i,
    {
        let name = names[i];
        let nc = to_chars(name);
        proof {
            let t = command_names().take(i + 1);
            assert(t.drop_last() =~= command_names().take(i as int));
            assert(t.last() == names@.map_values(|n: &str| n@)[i as int]);
        }
        if starts_with(&nc, &cc) {
            let ghost before = strings_view(out@);
            out.push(name.to_owned());
            proof {
                assert(strings_view(out@) =~= before.push(nc@));
            }
        }
        i = i + 1;
    }
    proof {
        assert(command_names().take(9) =~= command_names());
    }
    out
}

/// What completing `line`, split into `words`, comes to. The word being
/// completed must fit in the line, and the line in memory.
pub fn plan_completion_words(line: &str, words: &Vec<String>) -> (r: CompletionPlan)
    requires
        byte_len(current_word(line@, strings_view(words@))) <= byte_len(line@),
        byte_len(line@) <= isize::MAX,
    ensures
        r@ == spec_completion_plan(line@, strings_view(words@)),
{
    let lc = to_chars(line);
    let ghost ws = strings_view(words@);
    if starts_with_char(&lc, '!') {
        let rest = sub_chars(&lc, 1, lc.len());
        proof {
            assert(rest@ =~= line@.skip(1));
        }
        return CompletionPlan::Local { word: from_chars(&rest), offset: 1 };
    }
    let ews = ends_with_char(&lc, ' ');
    let current: String = if ews || words.len() == 0 {
        String::new()
    } else {
        words[words.len() - 1].clone()
    };
    proof {
        if !(ews || words@.len() == 0) {
            assert(ws.last() == words@[words@.len() - 1]@);
        }
    }
    let n = words.len();
    let one_arg = if ews {
        n == 0
    } else {
        n <= 1
    };
    let second = if ews {
        n == 1
    } else {
        n == 2
    };
    let third = if ews {
        n == 2
    } else {
        n == 3
    };
    let total = str_bytes(line);
    let cur = str_bytes(current.as_str());
    let base = total - cur;
    if one_arg {
        if current.as_str().is_empty() {
            let none: Vec<String> = Vec::new();
            proof {
                assert(strings_view(none@) =~= Seq::<Seq<char>>::empty());
            }
            return CompletionPlan::Fixed { start: total, candidates: none };
        }
        let candidates = matching_command_names(current.as_str());
        return CompletionPlan::Fixed { start: base, candidates };
    }
    let cmd = to_chars(words[0].as_str());
    proof {
        assert(cmd@ == ws[0]);
    }
    if chars_eq_str(&cmd, "cd") || chars_eq_str(&cmd, "mkdir") {
        CompletionPlan::Remote { word: current, dirs_only: true, offset: base }
    } else if chars_eq_str(&cmd, "ls") || chars_eq_str(&cmd, "get") || chars_eq_str(&cmd, "rm") {
        CompletionPlan::Remote { word: current, dirs_only: false, offset: base }
    } else if chars_eq_str(&cmd, "put") && second {
        CompletionPlan::Local { word: current, offset: base }
    } else if chars_eq_str(&cmd, "put") && third {
        CompletionPlan::Remote { word: current, dirs_only: false, offset: base }
    } else {
        let none: Vec<String> = Vec::new();
        proof {
            assert(strings_view(none@) =~= Seq::<Seq<char>>::empty());
        }
        CompletionPlan::Fixed { start: base + base, candidates: none }
    }
}

/// What completing `line` comes to; `None` only where the word being
/// completed does not fit in the line.
pub fn plan_completion(line: &str) -> (r: Option<CompletionPlan>)
    ensures
        match r {
            Some(plan) => plan@ == spec_completion_plan(line@, completion_words(line@)),
            None => byte_len(current_word(line@, completion_words(line@))) > byte_len(line@)
                || byte_len(line@) > isize::MAX,
        },
{
    let words = match shell_words(line) {
        Some(w) => {
            proof {
                assert(strings_view(w@) =~= w.deep_view());
            }
            w
        },
        None => split_whitespace_words(line),
    };
    let lc = to_chars(line);
    let ews = ends_with_char(&lc, ' ');
    let cur_len: usize = if ews || words.len() == 0 {
        0
    } else {
        str_bytes(words[words.len() - 1].as_str())
    };
    proof {
        if !(ews || words@.len() == 0) {
            assert(strings_view(words@).last() == words@[words@.len() - 1]@);
        } else {
            assert(vstd::utf8::encode_utf8(Seq::<char>::empty()) =~= Seq::<u8>::empty());
        }
    }
    let total = str_bytes(line);
    if cur_len > total || total > isize::MAX as usize {
        return None;
    }
    Some(plan_completion_words(line, &words))
}

} // verus!
