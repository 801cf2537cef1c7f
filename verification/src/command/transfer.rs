//! Planning of recursive transfers: which key each file goes to, where each
//! object lands, and what a finished run reports.

use vstd::prelude::*;

use crate::command::parse::opt_str_view;
use crate::command::types::{ExecMode, ExecOutcome};
use crate::error::{Error, ErrorModel};
use crate::key_set::{same_members, sorted_unique, strictly_sorted};
use crate::local_path::{file_name, path_file_name, push_path, push_path_chars};
use crate::s3::keys::{normalize_prefix, spec_normalize_prefix};
use crate::session::{spec_resolve_remote_path, Session};
use crate::text::{
    decimal, decimal_chars, ends_with_ch, ends_with_char, find_last, find_last_char,
    from_chars, has_prefix, pairs_view, push_all, push_str, starts_with, strings_view, sub_chars,
    to_chars, trim_ch, trim_char, trim_end_ch, trim_end_char, trim_start_ch, trim_start_char,
    lemma_trim_start_ch_noop, starts_with_ch,
};

verus! {

// ---------------------------------------------------------------------------
// Keys and local paths
// ---------------------------------------------------------------------------

/// The key of `relative` under the key prefix `prefix`, with one `/`
/// between them.
pub open spec fn spec_join_key_prefix(prefix: Seq<char>, relative: Seq<char>) -> Seq<char> {
    let rel = trim_start_ch(relative, '/');
    let p = trim_end_ch(prefix, '/');
    if rel.len() == 0 {
        p
    } else if p.len() == 0 {
        rel
    } else {
        p + seq!['/'] + rel
    }
}

/// The key of `relative` under the key prefix `prefix`.
pub fn join_key_prefix(prefix: &str, relative: &str) -> (r: String)
    ensures
        r@ == spec_join_key_prefix(prefix@, relative@),
{
    let rel = trim_start_char(&to_chars(relative), '/');
    let mut p = trim_end_char(&to_chars(prefix), '/');
    if rel.len() == 0 {
        return from_chars(&p);
    }
    if p.len() == 0 {
        return from_chars(&rel);
    }
    p.push('/');
    push_all(&mut p, &rel);
    from_chars(&p)
}

/// The last segment of a key prefix; `None` for the bucket root.
pub open spec fn spec_last_path_segment(prefix: Seq<char>) -> Option<Seq<char>> {
    let t = trim_ch(prefix, '/');
    if t.len() == 0 {
        None
    } else {
        match find_last(t, '/') {
            Some(i) => Some(t.skip(i + 1)),
            None => Some(t),
        }
    }
}

/// The last segment of a key prefix.
pub fn last_path_segment(prefix: &str) -> (r: Option<String>)
    ensures
        crate::command::types::opt_str_view(r) == spec_last_path_segment(prefix@),
{
    let t = trim_char(&to_chars(prefix), '/');
    if t.len() == 0 {
        return None;
    }
    match find_last_char(&t, '/') {
        Some(i) => {
            let seg = sub_chars(&t, i + 1, t.len());
            proof {
                assert(seg@ =~= t@.skip(i + 1));
            }
            Some(from_chars(&seg))
        },
        None => Some(from_chars(&t)),
    }
}

/// Where a recursive download puts its files.
#[derive(Debug, Clone, PartialEq, Eq)]
pub struct GetRecursiveLayout {
    /// The local directory that stands for the remote prefix.
    pub local_root: String,
    /// The local path was taken as the new name of the remote directory.
    pub rename_style: bool,
}

/// The layout of a recursive download of `remote_prefix`: the local root
/// and whether the local path renames the remote directory.
/// `local_is_dir` tells whether the local path is an existing directory.
pub open spec fn spec_get_layout(
    remote_prefix: Seq<char>,
    local: Option<Seq<char>>,
    local_is_dir: bool,
) -> Result<(Seq<char>, bool), ErrorModel> {
    let is_root = trim_ch(remote_prefix, '/').len() == 0;
    let seg = spec_last_path_segment(remote_prefix);
    match local {
        None => if is_root {
            Err(ErrorModel::BucketRootNeedsLocal)
        } else {
            match seg {
                Some(s) => Ok((s, false)),
                None => Err(ErrorModel::NeedsNamedPrefix),
            }
        },
        Some(l) => if l == seq!['.'] {
            Ok(
                (
                    match seg {
                        Some(s) => s,
                        None => seq!['.'],
                    },
                    false,
                ),
            )
        } else if is_root || ends_with_ch(l, '/') || local_is_dir {
            let s = match seg {
                Some(s) => s,
                None => Seq::<char>::empty(),
            };
            Ok(
                (
                    if s.len() == 0 {
                        l
                    } else {
                        push_path(l, s)
                    },
                    false,
                ),
            )
        } else {
            Ok((l, true))
        },
    }
}

/// The layout of a recursive download.
pub fn resolve_get_recursive_layout(
    remote_prefix: &str,
    local: Option<&str>,
    local_is_dir: bool,
) -> (r: Result<GetRecursiveLayout, Error>)
    ensures
        match r {
            Ok(layout) => spec_get_layout(remote_prefix@, opt_str_view(local), local_is_dir) == Ok::<
                (Seq<char>, bool),
                ErrorModel,
            >((layout.local_root@, layout.rename_style)),
            Err(e) => spec_get_layout(remote_prefix@, opt_str_view(local), local_is_dir) == Err::<
                (Seq<char>, bool),
                ErrorModel,
            >(e@),
        },
{
    let is_root = trim_char(&to_chars(remote_prefix), '/').len() == 0;
    let seg = last_path_segment(remote_prefix);
    match local {
        None => {
            if is_root {
                return Err(Error::BucketRootNeedsLocal);
            }
            match seg {
                Some(s) => Ok(GetRecursiveLayout { local_root: s, rename_style: false }),
                None => Err(Error::NeedsNamedPrefix),
            }
        },
        Some(l) => {
            let lc = to_chars(l);
            if lc.len() == 1 && lc[0] == '.' {
                proof {
                    assert(l@ =~= seq!['.']);
                }
                let root = match seg {
                    Some(s) => s,
                    None => from_chars(&lc),
                };
                return Ok(GetRecursiveLayout { local_root: root, rename_style: false });
            }
            proof {
                if l@ == seq!['.'] {
                    assert(lc@.len() == 1 && lc@[0] == '.');
                }
            }
            if is_root || ends_with_char(&lc, '/') || local_is_dir {
                let root = match seg {
                    Some(s) => {
                        let sc = to_chars(s.as_str());
                        if sc.len() == 0 {
                            from_chars(&lc)
                        } else {
                            from_chars(&push_path_chars(&lc, &sc))
                        }
                    },
                    None => from_chars(&lc),
                };
                Ok(GetRecursiveLayout { local_root: root, rename_style: false })
            } else {
                Ok(GetRecursiveLayout { local_root: from_chars(&lc), rename_style: true })
            }
        },
    }
}

/// The local path of the object at `relative_key` under the layout's root.
pub fn compute_get_local_path(layout: &GetRecursiveLayout, relative_key: &str) -> (r: String)
    ensures
        r@ == push_path(layout.local_root@, relative_key@),
{
    let base = to_chars(layout.local_root.as_str());
    let rel = to_chars(relative_key);
    from_chars(&push_path_chars(&base, &rel))
}

/// A key prefix as a listing takes it: without outer `/`, with one trailing
/// `/`; empty for the bucket root.
pub fn normalize_list_prefix(prefix: &str) -> (r: String)
    ensures
        r@ == spec_normalize_prefix(prefix@),
{
    normalize_prefix(prefix)
}

/// The part of `key` below the listed prefix `prefix`; `None` for directory
/// markers, for keys outside the prefix, and for the prefix itself.
pub open spec fn spec_relative_key(prefix: Seq<char>, key: Seq<char>) -> Option<Seq<char>> {
    let n = spec_normalize_prefix(prefix);
    let bare = trim_end_ch(n, '/');
    if ends_with_ch(key, '/') {
        None
    } else if n.len() == 0 {
        Some(trim_start_ch(key, '/'))
    } else {
        let rest = if has_prefix(key, n) {
            Some(key.skip(n.len() as int))
        } else if has_prefix(key, bare) {
            Some(key.skip(bare.len() as int))
        } else {
            None
        };
        match rest {
            None => None,
            Some(rest) => {
                let v = trim_start_ch(rest, '/');
                if v.len() == 0 {
                    None
                } else {
                    Some(v)
                }
            },
        }
    }
}

/// The part of `key` below the listed prefix `prefix`.
pub fn relative_key_from_prefix(prefix: &str, key: &str) -> (r: Option<String>)
    ensures
        crate::command::types::opt_str_view(r) == spec_relative_key(prefix@, key@),
{
    let k = to_chars(key);
    if ends_with_char(&k, '/') {
        return None;
    }
    let n = to_chars(normalize_list_prefix(prefix).as_str());
    if n.len() == 0 {
        return Some(from_chars(&trim_start_char(&k, '/')));
    }
    let bare = trim_end_char(&n, '/');
    let rest = if starts_with(&k, &n) {
        sub_chars(&k, n.len(), k.len())
    } else if starts_with(&k, &bare) {
        sub_chars(&k, bare.len(), k.len())
    } else {
        return None;
    };
    let v = trim_start_char(&rest, '/');
    if v.len() == 0 {
        None
    } else {
        Some(from_chars(&v))
    }
}

/// The objects a recursive download fetches: the keys under `remote_prefix`
/// taken relative to it (directory markers and the prefix itself left out),
/// sorted, each once.
pub fn plan_get_keys(remote_prefix: &str, keys: Vec<String>) -> (r: Vec<String>)
    ensures
        strictly_sorted(strings_view(r@)),
        forall|y: Seq<char>|
            strings_view(r@).contains(y) <==> exists|i: int|
                0 <= i < keys@.len() && spec_relative_key(remote_prefix@, #[trigger] keys@[i]@)
                    == Some(y),
{
    let mut rel: Vec<String> = Vec::new();
    let mut i: usize = 0;
    while i < keys.len()
        invariant
            i <= keys@.len(),
            forall|y: Seq<char>|
                strings_view(rel@).contains(y) <==> exists|j: int|
                    0 <= j < i && spec_relative_key(remote_prefix@, #[trigger] keys@[j]@) == Some(
                        y,
                    ),
        decreases keys@.len() - i,
    {
        let ghost before = strings_view(rel@);
        let got = relative_key_from_prefix(remote_prefix, keys[i].as_str());
        match got {
            Some(s) => {
                let ghost sv = s@;
                rel.push(s);
                proof {
                    assert(strings_view(rel@) =~= before.push(sv));
                    assert forall|y: Seq<char>| strings_view(rel@).contains(y) <==> exists|j: int|
                        0 <= j < i + 1 && spec_relative_key(remote_prefix@, #[trigger] keys@[j]@)
                            == Some(y) by {
                        if strings_view(rel@).contains(y) {
                            let k = choose|k: int|
                                0 <= k < strings_view(rel@).len() && strings_view(rel@)[k] == y;
                            if k < before.len() {
                                assert(before[k] == y);
                                assert(before.contains(y));
                            } else {
                                assert(spec_relative_key(remote_prefix@, keys@[i as int]@) == Some(
                                    y,
                                ));
                            }
                        }
                        if exists|j: int|
                            0 <= j < i + 1 && spec_relative_key(remote_prefix@, #[trigger] keys@[j]@)
                                == Some(y) {
                            let j = choose|j: int|
                                0 <= j < i + 1 && spec_relative_key(
                                    remote_prefix@,
                                    #[trigger] keys@[j]@,
                                ) == Some(y);
                            if j < i {
                                assert(before.contains(y));
                                let k = choose|k: int| 0 <= k < before.len() && before[k] == y;
                                assert(strings_view(rel@)[k] == y);
                            } else {
                                assert(strings_view(rel@)[before.len() as int] == y);
                            }
                        }
                    }
                }
            },
            None => {
                proof {
                    assert forall|y: Seq<char>| strings_view(rel@).contains(y) <==> exists|j: int|
                        0 <= j < i + 1 && spec_relative_key(remote_prefix@, #[trigger] keys@[j]@)
                            == Some(y) by {
                        if exists|j: int|
                            0 <= j < i + 1 && spec_relative_key(remote_prefix@, #[trigger] keys@[j]@)
                                == Some(y) {
                            let j = choose|j: int|
                                0 <= j < i + 1 && spec_relative_key(
                                    remote_prefix@,
                                    #[trigger] keys@[j]@,
                                ) == Some(y);
                            assert(j < i);
                        }
                    }
                }
            },
        }
        i = i + 1;
    }
    let r = sorted_unique(rel);
    proof {
        assert forall|y: Seq<char>| strings_view(r@).contains(y) <==> exists|i: int|
            0 <= i < keys@.len() && spec_relative_key(remote_prefix@, #[trigger] keys@[i]@) == Some(
                y,
            ) by {
            assert(same_members(strings_view(r@), strings_view(rel@)));
            assert(strings_view(r@).contains(y) <==> strings_view(rel@).contains(y));
        }
    }
    r
}

/// Below a prefix without a leading `/`, a key found by a recursive
/// download and the key it is fetched from agree: the key listed under the
/// prefix yields `rel`, and joining `rel` back onto the prefix gives that key.
pub proof fn law_relative_key_joins_back(prefix: Seq<char>, rel: Seq<char>)
    requires
        !starts_with_ch(prefix, '/'),
        rel.len() > 0,
        !starts_with_ch(rel, '/'),
        !ends_with_ch(rel, '/'),
    ensures
        spec_relative_key(prefix, spec_normalize_prefix(prefix) + rel) == Some(rel),
        spec_join_key_prefix(prefix, rel) == spec_normalize_prefix(prefix) + rel,
{
    let n = spec_normalize_prefix(prefix);
    let key = n + rel;
    lemma_trim_start_ch_noop(prefix, '/');
    lemma_trim_start_ch_noop(rel, '/');
    assert(key.last() == rel.last());
    if n.len() > 0 {
        assert(key.take(n.len() as int) =~= n);
        assert(key.skip(n.len() as int) =~= rel);
    } else {
        assert(key =~= rel);
        if prefix.len() > 0 {
            crate::text::lemma_trim_end_ch_shape(prefix, '/');
            assert(trim_end_ch(prefix, '/').len() == 0);
        }
    }
}

// ---------------------------------------------------------------------------
// Recursive uploads
// ---------------------------------------------------------------------------

/// The key prefix a recursive upload of the local directory `local_root`
/// goes to: its name in the current directory, under a remote directory
/// (one that ends in `/` or exists), or the remote path itself as a new
/// name. `local_is_dir` tells whether `local_root` is a directory.
pub open spec fn spec_put_prefix(
    cwd: Seq<char>,
    local_root: Seq<char>,
    local_is_dir: bool,
    remote: Option<Seq<char>>,
    remote_is_existing_dir: bool,
) -> Result<Seq<char>, ErrorModel> {
    if !local_is_dir {
        Err(ErrorModel::NotLocalDirectory(local_root))
    } else {
        match file_name(local_root) {
            None => Err(ErrorModel::LocalDirNoName),
            Some(b) => {
                let target = match remote {
                    None => b,
                    Some(r) => if r == seq!['/'] || r == seq!['.'] {
                        b
                    } else if ends_with_ch(r, '/') || remote_is_existing_dir {
                        let base = trim_end_ch(r, '/');
                        if base.len() == 0 {
                            b
                        } else {
                            base + seq!['/'] + b
                        }
                    } else {
                        r
                    },
                };
                match spec_resolve_remote_path(cwd, target) {
                    Some(k) => Ok(k),
                    None => Err(ErrorModel::PathEscapesRoot),
                }
            },
        }
    }
}

/// A remote name taken as the shell takes it: the key it resolves to from
/// `cwd`, or the error for a path that climbs above the bucket root.
pub open spec fn key_from_cwd(cwd: Seq<char>, input: Seq<char>) -> Result<Seq<char>, ErrorModel> {
    match spec_resolve_remote_path(cwd, input) {
        Some(k) => Ok(k),
        None => Err(ErrorModel::PathEscapesRoot),
    }
}

/// A recursive upload lands where the shell's own paths point: with no
/// remote path, or with `/` or `.`, the directory goes to its name resolved
/// from the current directory; with a remote path that is not a directory,
/// to that path resolved from the current directory. After `cd key`, a
/// directory named `name` thus goes to `key/name`.
pub proof fn law_put_prefix_resolves_in_cwd(
    cwd: Seq<char>,
    local_root: Seq<char>,
    name: Seq<char>,
    remote: Option<Seq<char>>,
    remote_is_existing_dir: bool,
)
    requires
        file_name(local_root) == Some(name),
    ensures
        (remote is None || remote == Some(seq!['/']) || remote == Some(seq!['.'])) ==> spec_put_prefix(
            cwd,
            local_root,
            true,
            remote,
            remote_is_existing_dir,
        ) == key_from_cwd(cwd, name),
        (remote matches Some(r) && r != seq!['/'] && r != seq!['.'] && !ends_with_ch(r, '/')
            && !remote_is_existing_dir) ==> spec_put_prefix(
            cwd,
            local_root,
            true,
            remote,
            remote_is_existing_dir,
        ) == key_from_cwd(cwd, remote->0),
        spec_put_prefix(cwd, local_root, false, remote, remote_is_existing_dir) == Err::<
            Seq<char>,
            ErrorModel,
        >(ErrorModel::NotLocalDirectory(local_root)),
{
}

/// After `cd key`, `put -r <dir>` with no remote path uploads a directory
/// named `name` under `key/name` (under `name` at the bucket root).
pub proof fn law_put_prefix_under_cwd(
    key: Seq<char>,
    local_root: Seq<char>,
    name: Seq<char>,
    remote_is_existing_dir: bool,
)
    requires
        crate::remote_path::is_canonical_key(key),
        crate::remote_path::is_plain_segment(name),
        file_name(local_root) == Some(name),
    ensures
        spec_put_prefix(
            crate::session::spec_cwd_for(key),
            local_root,
            true,
            None,
            remote_is_existing_dir,
        ) == Ok::<Seq<char>, ErrorModel>(
            if key.len() == 0 {
                name
            } else {
                key + seq!['/'] + name
            },
        ),
{
    crate::session::law_name_resolves_in_cwd(key, name);
}

/// The key prefix of a recursive upload.
pub fn resolve_put_recursive_prefix(
    session: &Session,
    local_root: &str,
    local_is_dir: bool,
    remote_path: Option<&str>,
    remote_is_existing_dir: bool,
) -> (r: Result<String, Error>)
    ensures
        crate::error::result_view(r) == spec_put_prefix(
            session.cwd@,
            local_root@,
            local_is_dir,
            opt_str_view(remote_path),
            remote_is_existing_dir,
        ),
{
    if !local_is_dir {
        return Err(Error::NotLocalDirectory(local_root.to_owned()));
    }
    let basename = match path_file_name(local_root) {
        Some(b) => b,
        None => return Err(Error::LocalDirNoName),
    };
    let target = match remote_path {
        None => basename,
        Some(remote) => {
            let rc = to_chars(remote);
            let is_here = rc.len() == 1 && (rc[0] == '/' || rc[0] == '.');
            proof {
                if remote@ == seq!['/'] {
                    assert(rc@.len() == 1 && rc@[0] == '/');
                }
                if remote@ == seq!['.'] {
                    assert(rc@.len() == 1 && rc@[0] == '.');
                }
                if is_here {
                    assert(remote@ =~= seq![rc@[0]]);
                }
            }
            if is_here {
                basename
            } else if ends_with_char(&rc, '/') || remote_is_existing_dir {
                let mut base = trim_end_char(&rc, '/');
                if base.len() == 0 {
                    basename
                } else {
                    base.push('/');
                    push_str(&mut base, basename.as_str());
                    proof {
                        assert(base@ =~= trim_end_ch(remote@, '/') + seq!['/'] + basename@);
                    }
                    from_chars(&base)
                }
            } else {
                remote.to_owned()
            }
        },
    };
    session.resolve_remote(target.as_str())
}

/// `Path::strip_prefix` of two paths given as text: what, joined onto
/// `base`, gives `path`; `None` where `base` is not a prefix of `path` by
/// components.
pub uninterp spec fn path_strip_prefix(path: Seq<char>, base: Seq<char>) -> Option<Seq<char>>;

/// Calls `std::path::Path::strip_prefix`; the contract claims that the
/// result depends on the two paths alone, and names it.
#[verifier::external_body]
fn strip_path_prefix(path: &str, base: &str) -> (r: Option<String>)
    ensures
        crate::command::types::opt_str_view(r) == path_strip_prefix(path@, base@),
{
    match std::path::Path::new(path).strip_prefix(base) {
        Ok(rest) => Some(rest.to_string_lossy().into_owned()),
        Err(_) => None,
    }
}

/// `s` with each `\` replaced by `/`.
pub open spec fn forward_slashes(s: Seq<char>) -> Seq<char> {
    s.map_values(|c: char| if c == '\\' { '/' } else { c })
}

/// The path of `file` below `root`, with `/` separators, from the result of
/// `Path::strip_prefix`.
pub fn relative_path_from(file: &str, root: &str, stripped: Option<String>) -> (r: Result<
    String,
    Error,
>)
    ensures
        match stripped {
            Some(s) => r matches Ok(v) && v@ == forward_slashes(s@),
            None => r matches Err(e) && e@ == ErrorModel::NotUnder(file@, root@),
        },
{
    match stripped {
        None => Err(Error::NotUnder(file.to_owned(), root.to_owned())),
        Some(s) => {
            let c = to_chars(s.as_str());
            let mut out: Vec<char> = Vec::new();
            let mut i: usize = 0;
            while i < c.len()
                invariant
                    i <= c@.len(),
                    out@ == forward_slashes(c@.take(i as int)),
                decreases c@.len() - i,
            {
                let ch = if c[i] == '\\' {
                    '/'
                } else {
                    c[i]
                };
                out.push(ch);
                proof {
                    assert(forward_slashes(c@.take(i + 1)) =~= forward_slashes(c@.take(i as int)).push(
                        ch,
                    ));
                }
                i = i + 1;
            }
            proof {
                assert(c@.take(c@.len() as int) =~= c@);
            }
            Ok(from_chars(&out))
        },
    }
}

/// The path of `file` below the directory `root`, with `/` separators.
pub fn relative_local_path(root: &str, file: &str) -> (r: Result<String, Error>)
    ensures
        match path_strip_prefix(file@, root@) {
            Some(s) => r matches Ok(v) && v@ == forward_slashes(s),
            None => r matches Err(e) && e@ == ErrorModel::NotUnder(file@, root@),
        },
{
    let stripped = strip_path_prefix(file, root);
    relative_path_from(file, root, stripped)
}

// ---------------------------------------------------------------------------
// Reports
// ---------------------------------------------------------------------------

/// What a recursive transfer did.
#[derive(Debug)]
pub struct TransferReport {
    /// Transfers that succeeded.
    pub ok: usize,
    /// Transfers that failed: the key or file and the message.
    pub failed: Vec<(String, String)>,
    /// Files left out (symbolic links and other non-regular files).
    pub skipped: usize,
}

impl Default for TransferReport {
    fn default() -> (r: TransferReport)
        ensures
            r.ok == 0,
            r.failed@.len() == 0,
            r.skipped == 0,
    {
        TransferReport { ok: 0, failed: Vec::new(), skipped: 0 }
    }
}

/// How one transfer of a recursive run ended.
#[derive(Debug, Clone, PartialEq, Eq)]
pub enum ItemOutcome {
    /// The transfer succeeded.
    Done,
    /// The user interrupted it.
    Interrupted,
    /// It failed; the message.
    Failed(String),
}

impl TransferReport {
    /// A report of a run that has left out `skipped` files.
    pub fn with_skipped(skipped: usize) -> (r: TransferReport)
        ensures
            r.ok == 0,
            r.failed@.len() == 0,
            r.skipped == skipped,
    {
        TransferReport { ok: 0, failed: Vec::new(), skipped }
    }

    /// Records how the transfer of `key` ended; `false` where the run stops
    /// (the user interrupted it).
    pub fn record(&mut self, key: String, outcome: ItemOutcome) -> (go_on: bool)
        requires
            old(self).ok < usize::MAX,
        ensures
            final(self).skipped == old(self).skipped,
            outcome is Done ==> go_on && final(self).ok == old(self).ok + 1,
            outcome is Done ==> final(self).failed@ == old(self).failed@,
            outcome is Interrupted ==> !go_on && final(self).ok == old(self).ok,
            outcome is Interrupted ==> final(self).failed@ == old(self).failed@,
            outcome is Failed ==> go_on && final(self).ok == old(self).ok,
            outcome matches ItemOutcome::Failed(m) ==> pairs_view(final(self).failed@)
                == pairs_view(old(self).failed@).push((key@, m@)),
    {
        match outcome {
            ItemOutcome::Done => {
                self.ok = self.ok + 1;
                true
            },
            ItemOutcome::Interrupted => false,
            ItemOutcome::Failed(m) => {
                let ghost before = pairs_view(self.failed@);
                let ghost entry = (key@, m@);
                self.failed.push((key, m));
                proof {
                    assert(pairs_view(self.failed@) =~= before.push(entry));
                }
                true
            },
        }
    }
}

/// The summary line of a recursive transfer.
pub open spec fn spec_transfer_summary(ok: nat, skipped: nat, failed: nat, interrupted: bool) -> Seq<
    char,
> {
    let s1 = "transfer summary: "@ + decimal(ok) + " succeeded"@;
    let s2 = if skipped > 0 {
        s1 + ", "@ + decimal(skipped) + " skipped"@
    } else {
        s1
    };
    let s3 = if failed > 0 {
        s2 + ", "@ + decimal(failed) + " failed"@
    } else {
        s2
    };
    if interrupted {
        s3 + ", interrupted"@
    } else {
        s3
    }
}

/// The summary line printed after a recursive transfer.
pub fn transfer_summary(report: &TransferReport, interrupted: bool) -> (r: String)
    ensures
        r@ == spec_transfer_summary(
            report.ok as nat,
            report.skipped as nat,
            report.failed@.len(),
            interrupted,
        ),
{
    let mut out: Vec<char> = Vec::new();
    push_str(&mut out, "transfer summary: ");
    push_all(&mut out, &decimal_chars(report.ok as u64));
    push_str(&mut out, " succeeded");
    if report.skipped > 0 {
        push_str(&mut out, ", ");
        push_all(&mut out, &decimal_chars(report.skipped as u64));
        push_str(&mut out, " skipped");
    }
    if report.failed.len() > 0 {
        push_str(&mut out, ", ");
        push_all(&mut out, &decimal_chars(report.failed.len() as u64));
        push_str(&mut out, " failed");
    }
    if interrupted {
        push_str(&mut out, ", interrupted");
    }
    from_chars(&out)
}

/// What a finished recursive transfer answers: an interrupted run ends the
/// command (with exit code 130 on the command line), failures make an error.
pub fn finish_recursive(mode: ExecMode, report: &TransferReport, interrupted: bool) -> (r: Result<
    ExecOutcome,
    Error,
>)
    ensures
        interrupted ==> r == match mode {
            ExecMode::Interactive => Ok::<ExecOutcome, Error>(ExecOutcome::Continue),
            ExecMode::NonInteractive => Ok::<ExecOutcome, Error>(ExecOutcome::ExitCode(130)),
        },
        !interrupted && report.failed@.len() > 0 ==> (r matches Err(e) && e@
            == ErrorModel::TransfersFailed(report.failed@.len())),
        !interrupted && report.failed@.len() == 0 ==> r == Ok::<ExecOutcome, Error>(
            ExecOutcome::Continue,
        ),
{
    if interrupted {
        return match mode {
            ExecMode::Interactive => Ok(ExecOutcome::Continue),
            ExecMode::NonInteractive => Ok(ExecOutcome::ExitCode(130)),
        };
    }
    if report.failed.len() > 0 {
        return Err(Error::TransfersFailed(report.failed.len()));
    }
    Ok(ExecOutcome::Continue)
}

} // verus!
