//! The shell's session: the profiles, the attached bucket and the current
//! remote directory.

use vstd::prelude::*;

use crate::command::parse::{expand_tilde, opt_str_view, spec_expand_tilde};
use crate::config::{ProfileConfig, ProfileMap};
use crate::error::{Error, ErrorModel};
use crate::local_path::{file_name, join_path, path_file_name, push_path};
use crate::remote_path::{
    is_canonical_key, is_plain_segment, join_with, lemma_canonical_parts,
    lemma_join_plain_canonical, lemma_normalize_none_prefix,
    lemma_normalize_plain, lemma_normalize_result_plain, lemma_split_basics, lemma_split_concat,
    lemma_split_prefix, lemma_split_step, normalize_segments, seg_step, split_on,
};
use crate::text::{
    ends_with_ch, ends_with_char, from_chars, push_all, push_str, starts_with_ch,
    starts_with_char, to_chars, trim_end_ch, trim_end_char,
};

verus! {

/// The path that `input` names from the directory `cwd`, before `.` and
/// `..` are applied: an absolute input as it is, a relative one under `cwd`.
pub open spec fn remote_candidate(cwd: Seq<char>, input: Seq<char>) -> Seq<char> {
    let abs = starts_with_ch(input, '/');
    let base = if abs {
        Seq::<char>::empty()
    } else {
        trim_end_ch(cwd, '/')
    };
    if abs || base.len() == 0 {
        input
    } else if input.len() == 0 {
        seq!['/'] + base
    } else {
        seq!['/'] + base + seq!['/'] + input
    }
}

/// The key that `input` names from the directory `cwd`: its segments
/// walked from the root, joined by `/`; `None` where a `..` climbs above the
/// bucket root.
pub open spec fn spec_resolve_remote_path(cwd: Seq<char>, input: Seq<char>) -> Option<Seq<char>> {
    match normalize_segments(split_on(remote_candidate(cwd, input), '/')) {
        Some(parts) => Some(join_with(parts, '/')),
        None => None,
    }
}

/// The segments held in a stack of character vectors.
pub open spec fn stack_view(v: Seq<Vec<char>>) -> Seq<Seq<char>> {
    Seq::new(v.len(), |i: int| v[i]@)
}

/// One segment applied to the stack of directories.
fn apply_segment(stack: &mut Vec<Vec<char>>, seg: Vec<char>) -> (ok: bool)
    ensures
        ok == (seg_step(stack_view(old(stack)@), seg@) is Some),
        ok ==> stack_view(final(stack)@) == seg_step(stack_view(old(stack)@), seg@)->0,
{
    if seg.len() == 0 {
        return true;
    }
    if seg.len() == 1 && seg[0] == '.' {
        proof {
            assert(seg@ =~= seq!['.']);
        }
        return true;
    }
    if seg.len() == 2 && seg[0] == '.' && seg[1] == '.' {
        proof {
            assert(seg@ =~= seq!['.', '.']);
        }
        if stack.len() == 0 {
            return false;
        }
        let _ = stack.pop();
        proof {
            assert(stack_view(stack@) =~= stack_view(old(stack)@).drop_last());
        }
        return true;
    }
    proof {
        assert(seq!['.'].len() == 1);
        assert(seq!['.', '.'].len() == 2);
        if seg@.len() == 1 {
            assert(seg@ != seq!['.']) by {
                assert(seg@[0] != '.');
            }
        }
        if seg@.len() == 2 {
            assert(seg@ != seq!['.', '.']) by {
                assert(seg@[0] != '.' || seg@[1] != '.');
            }
        }
    }
    stack.push(seg);
    proof {
        assert(stack_view(stack@) =~= stack_view(old(stack)@).push(seg@));
    }
    true
}

/// The pieces joined by `/`.
fn join_segments(stack: &Vec<Vec<char>>) -> (r: Vec<char>)
    ensures
        r@ == join_with(stack_view(stack@), '/'),
{
    let ghost st = stack_view(stack@);
    let mut out: Vec<char> = Vec::new();
    let mut k: usize = 0;
    while k < stack.len()
        invariant
            st == stack_view(stack@),
            k <= stack@.len(),
            out@ == join_with(st.take(k as int), '/'),
        decreases stack@.len() - k,
    {
        proof {
            assert(st.take(k + 1).drop_last() =~= st.take(k as int));
            assert(st.take(k + 1).last() == stack@[k as int]@);
        }
        if k > 0 {
            out.push('/');
        } else {
            proof {
                assert(out@ =~= Seq::<char>::empty());
            }
        }
        push_all(&mut out, stack[k].as_slice());
        proof {
            if k == 0 {
                assert(join_with(st.take(1), '/') == st.take(1)[0]);
                assert(out@ =~= stack@[0]@);
            }
        }
        k = k + 1;
    }
    proof {
        assert(st.take(k as int) =~= st);
    }
    out
}

/// The key that `input` names from the directory `cwd` (the segments of
/// the path walked from the bucket root, `.` staying and `..` going up,
/// joined by `/`); an error where a `..` climbs above the root.
pub fn resolve_remote_path(cwd: &str, input: &str) -> (r: Result<String, Error>)
    ensures
        match r {
            Ok(key) => spec_resolve_remote_path(cwd@, input@) == Some(key@),
            Err(e) => spec_resolve_remote_path(cwd@, input@) is None && e@
                == ErrorModel::PathEscapesRoot,
        },
{
    let cwd_v = to_chars(cwd);
    let in_v = to_chars(input);
    let abs = starts_with_char(&in_v, '/');
    let base = if abs {
        Vec::new()
    } else {
        trim_end_char(&cwd_v, '/')
    };
    proof {
        if abs {
            assert(base@ =~= Seq::<char>::empty());
        }
    }
    let cand = if abs || base.len() == 0 {
        in_v
    } else if in_v.len() == 0 {
        let mut c: Vec<char> = Vec::new();
        c.push('/');
        push_all(&mut c, &base);
        c
    } else {
        let mut c: Vec<char> = Vec::new();
        c.push('/');
        push_all(&mut c, &base);
        c.push('/');
        push_all(&mut c, &in_v);
        c
    };
    let ghost full = remote_candidate(cwd@, input@);
    proof {
        if !(abs || base@.len() == 0) {
            if input@.len() == 0 {
                assert(cand@ =~= seq!['/'] + base@);
            } else {
                assert(cand@ =~= seq!['/'] + base@ + seq!['/'] + input@);
            }
        }
        assert(cand@ == full);
    }
    let mut stack: Vec<Vec<char>> = Vec::new();
    let mut cur: Vec<char> = Vec::new();
    let ghost mut done: Seq<Seq<char>> = Seq::empty();
    proof {
        assert(cand@.take(0) =~= Seq::<char>::empty());
        assert(done.push(cur@) =~= seq![Seq::<char>::empty()]);
        assert(stack_view(stack@) =~= Seq::<Seq<char>>::empty());
    }
    let mut i: usize = 0;
    while i < cand.len()
        invariant
            i <= cand@.len(),
            cand@ == full,
            full == remote_candidate(cwd@, input@),
            split_on(cand@.take(i as int), '/') == done.push(cur@),
            normalize_segments(done) == Some(stack_view(stack@)),
        decreases cand@.len() - i,
    {
        proof {
            lemma_split_step(cand@, i as int, '/');
        }
        if cand[i] == '/' {
            let ghost old_stack = stack_view(stack@);
            let seg = cur;
            cur = Vec::new();
            let ok = apply_segment(&mut stack, seg);
            proof {
                assert(done.push(seg@).drop_last() =~= done);
                assert(normalize_segments(done.push(seg@)) == seg_step(old_stack, seg@));
            }
            if !ok {
                proof {
                    lemma_split_prefix(cand@, i + 1, '/');
                    let p = split_on(cand@.take(i + 1), '/');
                    assert(p.drop_last() =~= done.push(seg@));
                    assert(normalize_segments(done.push(seg@)) is None);
                    assert(normalize_segments(split_on(cand@, '/').take(p.len() - 1)) is None);
                    lemma_normalize_none_prefix(split_on(cand@, '/'), p.len() - 1);
                    assert(normalize_segments(split_on(full, '/')) is None);
                    assert(full == remote_candidate(cwd@, input@));
                    assert(spec_resolve_remote_path(cwd@, input@) is None);
                }
                return Err(Error::PathEscapesRoot);
            }
            proof {
                done = done.push(seg@);
                assert(done.push(cur@) =~= split_on(cand@.take(i + 1), '/'));
            }
        } else {
            let ghost old_cur = cur@;
            cur.push(cand[i]);
            proof {
                assert(done.push(old_cur).update(done.len() as int, old_cur.push(cand@[i as int]))
                    =~= done.push(cur@));
            }
        }
        i = i + 1;
    }
    proof {
        assert(cand@.take(i as int) =~= cand@);
    }
    let ghost old_stack = stack_view(stack@);
    let ghost last = cur@;
    let ok = apply_segment(&mut stack, cur);
    proof {
        assert(done.push(last).drop_last() =~= done);
    }
    if !ok {
        return Err(Error::PathEscapesRoot);
    }
    let out = join_segments(&stack);
    Ok(from_chars(&out))
}

/// Every key that resolving yields is canonical: plain segments joined by
/// single `/`s, nothing at either end.
pub proof fn law_resolved_key_is_canonical(cwd: Seq<char>, input: Seq<char>)
    requires
        spec_resolve_remote_path(cwd, input) is Some,
    ensures
        is_canonical_key(spec_resolve_remote_path(cwd, input)->0),
{
    let segs = split_on(remote_candidate(cwd, input), '/');
    lemma_split_basics(remote_candidate(cwd, input), '/');
    lemma_normalize_result_plain(segs);
    lemma_join_plain_canonical(normalize_segments(segs)->0);
}

/// An absolute path resolves the same from every directory.
pub proof fn law_absolute_ignores_cwd(cwd1: Seq<char>, cwd2: Seq<char>, input: Seq<char>)
    requires
        starts_with_ch(input, '/'),
    ensures
        spec_resolve_remote_path(cwd1, input) == spec_resolve_remote_path(cwd2, input),
{
}

/// A canonical key resolves to itself: as an absolute path from any
/// directory, and as a relative path from the bucket root.
pub proof fn law_canonical_key_resolves_to_itself(cwd: Seq<char>, key: Seq<char>)
    requires
        is_canonical_key(key),
    ensures
        spec_resolve_remote_path(cwd, seq!['/'] + key) == Some(key),
        spec_resolve_remote_path(Seq::<char>::empty(), key) == Some(key),
{
    let empty = Seq::<char>::empty();
    let es = Seq::<Seq<char>>::empty();
    lemma_canonical_parts(key);
    lemma_split_concat(empty, key, '/');
    assert(empty + seq!['/'] + key =~= seq!['/'] + key);
    assert(split_on(empty, '/') == seq![empty]);
    let pre = seq![empty];
    assert(pre.drop_last() =~= es);
    assert(normalize_segments(es) == Some(es));
    assert(pre.last() == empty);
    assert(normalize_segments(pre) == Some(es));
    if key.len() > 0 {
        lemma_normalize_plain(pre, split_on(key, '/'));
        assert(es + split_on(key, '/') =~= split_on(key, '/'));
        crate::remote_path::lemma_join_split(key, '/');
        lemma_normalize_plain(es, split_on(key, '/'));
        assert(es + split_on(key, '/') =~= split_on(key, '/'));
    } else {
        assert(key =~= empty);
        assert(split_on(seq!['/'] + key, '/') == pre + pre);
        assert((pre + pre).drop_last() =~= pre);
        assert(pre.drop_last() =~= es);
    }
}

/// After `cd` has made `key` the current directory (stored as `key/`, or
/// empty at the root), `.` and the empty path resolve to `key`.
pub proof fn law_cd_then_dot(key: Seq<char>)
    requires
        is_canonical_key(key),
    ensures
        spec_resolve_remote_path(spec_cwd_for(key), seq!['.']) == Some(key),
        spec_resolve_remote_path(spec_cwd_for(key), Seq::<char>::empty()) == Some(key),
{
    let empty = Seq::<char>::empty();
    let es = Seq::<Seq<char>>::empty();
    lemma_canonical_parts(key);
    if key.len() == 0 {
        assert(spec_cwd_for(key) == empty);
        assert(split_on(seq!['.'], '/') == seq![seq!['.']]) by {
            crate::remote_path::lemma_split_no_sep(seq!['.'], '/');
        }
        assert(seq![seq!['.']].drop_last() =~= es);
        assert(split_on(empty, '/') == seq![empty]);
        assert(seq![empty].drop_last() =~= es);
        assert(key =~= empty);
    } else {
        let cwd = key.push('/');
        assert(cwd.drop_last() =~= key);
        assert(trim_end_ch(cwd, '/') == trim_end_ch(key, '/'));
        let parts = split_on(key, '/');
        lemma_split_basics(key, '/');
        assert(key.last() != '/') by {
            let pl = parts.last();
            crate::remote_path::lemma_join_split(key, '/');
            assert(is_plain_segment(parts[parts.len() - 1]));
            if key.last() == '/' {
                assert(key.drop_last().push('/') =~= key);
                assert(parts.last().len() == 0);
            }
        }
        assert(trim_end_ch(key, '/') == key);
        // `.`: "/" + key + "/" + "."
        let c1 = seq!['/'] + key + seq!['/'] + seq!['.'];
        lemma_split_concat(seq!['/'] + key, seq!['.'], '/');
        lemma_split_concat(empty, key, '/');
        assert(empty + seq!['/'] + key =~= seq!['/'] + key);
        crate::remote_path::lemma_split_no_sep(seq!['.'], '/');
        let pre = seq![empty];
        assert(pre.drop_last() =~= es);
        assert(normalize_segments(es) == Some(es));
        assert(pre.last() == empty);
        assert(normalize_segments(pre) == Some(es));
        lemma_normalize_plain(pre, parts);
        assert(es + parts =~= parts);
        let all = pre + parts + seq![seq!['.']];
        assert(split_on(c1, '/') == all);
        assert(all.drop_last() =~= pre + parts);
        crate::remote_path::lemma_join_split(key, '/');
        // empty input: "/" + key
        assert(split_on(seq!['/'] + key, '/') == pre + parts);
    }
}

/// A plain name resolves inside the current directory: after `cd` has
/// made `key` the current directory, `name` resolves to `key/name` (to
/// `name` at the bucket root).
pub proof fn law_name_resolves_in_cwd(key: Seq<char>, name: Seq<char>)
    requires
        is_canonical_key(key),
        is_plain_segment(name),
    ensures
        spec_resolve_remote_path(spec_cwd_for(key), name) == Some(
            if key.len() == 0 {
                name
            } else {
                key + seq!['/'] + name
            },
        ),
{
    let empty = Seq::<char>::empty();
    let es = Seq::<Seq<char>>::empty();
    lemma_canonical_parts(key);
    assert(!name.contains('/'));
    crate::remote_path::lemma_split_no_sep(name, '/');
    assert(!starts_with_ch(name, '/')) by {
        assert(name[0] != '/') by {
            assert(name.contains(name[0]));
        }
    }
    assert(crate::remote_path::all_plain(seq![name])) by {
        assert(seq![name][0] == name);
    }
    if key.len() == 0 {
        assert(spec_cwd_for(key) == empty);
        assert(remote_candidate(empty, name) == name);
        lemma_normalize_plain(es, seq![name]);
        assert(es + seq![name] =~= seq![name]);
        assert(normalize_segments(es) == Some(es));
    } else {
        let cwd = trim_end_ch(key, '/').push('/');
        let parts = split_on(key, '/');
        lemma_split_basics(key, '/');
        crate::remote_path::lemma_join_split(key, '/');
        assert(key.last() != '/') by {
            assert(is_plain_segment(parts[parts.len() - 1]));
            if key.last() == '/' {
                assert(key.drop_last().push('/') =~= key);
                assert(parts.last().len() == 0);
            }
        }
        assert(trim_end_ch(key, '/') == key);
        assert(cwd.drop_last() =~= key);
        assert(trim_end_ch(cwd, '/') == key);
        let c1 = seq!['/'] + key + seq!['/'] + name;
        assert(remote_candidate(cwd, name) == c1);
        lemma_split_concat(seq!['/'] + key, name, '/');
        lemma_split_concat(empty, key, '/');
        assert(empty + seq!['/'] + key =~= seq!['/'] + key);
        let pre = seq![empty];
        assert(split_on(empty, '/') == pre);
        assert(pre.drop_last() =~= es);
        assert(normalize_segments(es) == Some(es));
        assert(pre.last() == empty);
        assert(normalize_segments(pre) == Some(es));
        let tail = parts.push(name);
        assert(crate::remote_path::all_plain(tail)) by {
            assert forall|i: int| 0 <= i < tail.len() implies #[trigger] is_plain_segment(tail[i]) by {
                if i < parts.len() {
                    assert(tail[i] == parts[i]);
                }
            }
        }
        lemma_normalize_plain(pre, tail);
        assert(split_on(c1, '/') =~= pre + tail);
        assert(es + tail =~= tail);
        crate::remote_path::lemma_join_push(parts, name, '/');
        assert(join_with(parts, '/').push('/') + name =~= key + seq!['/'] + name);
    }
}

/// The current directory that `cd` stores for a resolved key.
pub open spec fn spec_cwd_for(key: Seq<char>) -> Seq<char> {
    if key.len() == 0 {
        Seq::<char>::empty()
    } else {
        trim_end_ch(key, '/').push('/')
    }
}

/// `/` and the directory, without its trailing `/`.
pub open spec fn spec_cwd_display(cwd: Seq<char>) -> Seq<char> {
    if cwd.len() == 0 {
        seq!['/']
    } else {
        seq!['/'] + trim_end_ch(cwd, '/')
    }
}

/// The shell's state.
#[derive(Debug)]
pub struct Session {
    pub profiles: ProfileMap,
    pub default_profile: Option<String>,
    pub profile_name: Option<String>,
    pub bucket: Option<String>,
    /// The current remote directory: empty at the root, else the key and a `/`.
    pub cwd: String,
}

/// The interactive prompt.
pub open spec fn spec_prompt(
    profile_name: Option<Seq<char>>,
    bucket: Option<Seq<char>>,
    cwd: Seq<char>,
) -> Seq<char> {
    match profile_name {
        Some(profile) => if bucket is Some {
            let path = if cwd.len() == 0 {
                seq!['/']
            } else {
                seq!['/'] + cwd
            };
            profile + seq![':'] + path + seq!['>', ' ']
        } else {
            profile + seq!['>', ' ']
        },
        None => "bucketctl> "@,
    }
}

/// Where the shell is, as `pwd` prints it.
pub open spec fn spec_location_display(
    profile_name: Option<Seq<char>>,
    bucket: Option<Seq<char>>,
    cwd: Seq<char>,
) -> Seq<char> {
    match profile_name {
        None => seq!['/'],
        Some(profile) => if bucket is Some {
            profile + seq![':'] + spec_cwd_display(cwd)
        } else {
            profile + seq![':', '/']
        },
    }
}

/// The key an upload of `local` goes to: its file name in the current
/// directory, or the given remote path (with the file name appended when it
/// ends in `/`).
pub open spec fn spec_upload_target(cwd: Seq<char>, local: Seq<char>, remote: Option<Seq<char>>) -> Result<
    Seq<char>,
    ErrorModel,
> {
    match file_name(local) {
        None => Err(ErrorModel::LocalNoFileName),
        Some(name) => {
            let target = match remote {
                Some(r) => if ends_with_ch(r, '/') {
                    r + name
                } else {
                    r
                },
                None => name,
            };
            match spec_resolve_remote_path(cwd, target) {
                Some(k) => Ok(k),
                None => Err(ErrorModel::PathEscapesRoot),
            }
        },
    }
}

/// The key an upload of `local` into the remote directory `remote_dir` goes to.
pub open spec fn spec_upload_target_in_dir(cwd: Seq<char>, local: Seq<char>, remote_dir: Seq<char>) -> Result<
    Seq<char>,
    ErrorModel,
> {
    match file_name(local) {
        None => Err(ErrorModel::LocalNoFileName),
        Some(name) => match spec_resolve_remote_path(
            cwd,
            trim_end_ch(remote_dir, '/') + seq!['/'] + name,
        ) {
            Some(k) => Ok(k),
            None => Err(ErrorModel::PathEscapesRoot),
        },
    }
}

/// The local path a download of `remote` goes to: the given local path (with
/// `~` expanded, and the object's file name joined when that path is an
/// existing directory), else the object's file name.
pub open spec fn spec_download_target(
    remote: Seq<char>,
    local: Option<Seq<char>>,
    home: Option<Seq<char>>,
    local_is_dir: bool,
) -> Result<Seq<char>, ErrorModel> {
    match file_name(remote) {
        None => Err(ErrorModel::RemoteNoObjectName),
        Some(name) => match local {
            Some(l) => {
                let p = spec_expand_tilde(l, home);
                if local_is_dir {
                    Ok(push_path(p, name))
                } else {
                    Ok(p)
                }
            },
            None => Ok(name),
        },
    }
}

impl Session {
    /// A session with no profile attached, at the root.
    pub fn new(profiles: ProfileMap, default_profile: Option<String>) -> (s: Session)
        ensures
            s.profiles == profiles,
            s.default_profile == default_profile,
            s.profile_name is None,
            s.bucket is None,
            s.cwd@ == Seq::<char>::empty(),
    {
        Session { profiles, default_profile, profile_name: None, bucket: None, cwd: String::new() }
    }

    /// The interactive prompt: `profile:/dir> `, `profile> ` or `bucketctl> `.
    pub fn prompt(&self) -> (r: String)
        ensures
            r@ == spec_prompt(
                crate::command::types::opt_str_view(self.profile_name),
                crate::command::types::opt_str_view(self.bucket),
                self.cwd@,
            ),
    {
        match &self.profile_name {
            Some(profile) => {
                let mut out = to_chars(profile.as_str());
                if self.bucket.is_some() {
                    out.push(':');
                    out.push('/');
                    push_str(&mut out, self.cwd.as_str());
                    proof {
                        if self.cwd@.len() == 0 {
                            assert(out@ =~= profile@ + seq![':'] + seq!['/']);
                        } else {
                            assert(out@ =~= profile@ + seq![':'] + (seq!['/'] + self.cwd@));
                        }
                    }
                }
                out.push('>');
                out.push(' ');
                proof {
                    if self.bucket.is_some() {
                        if self.cwd@.len() == 0 {
                            assert(out@ =~= profile@ + seq![':'] + seq!['/'] + seq!['>', ' ']);
                        } else {
                            assert(out@ =~= profile@ + seq![':'] + (seq!['/'] + self.cwd@)
                                + seq!['>', ' ']);
                        }
                    } else {
                        assert(out@ =~= profile@ + seq!['>', ' ']);
                    }
                }
                from_chars(&out)
            },
            None => "bucketctl> ".to_owned(),
        }
    }

    /// The attached bucket.
    pub fn selected_bucket(&self) -> (r: Result<&str, Error>)
        ensures
            match r {
                Ok(b) => self.bucket matches Some(x) && x@ == b@,
                Err(e) => self.bucket is None && e@ == ErrorModel::NoProfileAttached,
            },
    {
        match &self.bucket {
            Some(b) => Ok(b.as_str()),
            None => Err(Error::NoProfileAttached),
        }
    }

    /// Attaches a profile and its bucket; the current directory goes back
    /// to the root.
    pub fn attach_profile(&mut self, profile_name: String, bucket: String)
        ensures
            final(self).profile_name == Some(profile_name),
            final(self).bucket == Some(bucket),
            final(self).cwd@ == Seq::<char>::empty(),
            final(self).profiles == old(self).profiles,
            final(self).default_profile == old(self).default_profile,
    {
        self.profile_name = Some(profile_name);
        self.bucket = Some(bucket);
        self.cwd = String::new();
    }

    /// The attached bucket, if any.
    pub fn current_bucket(&self) -> (r: Option<&str>)
        ensures
            match r {
                Some(b) => self.bucket matches Some(x) && x@ == b@,
                None => self.bucket is None,
            },
    {
        match &self.bucket {
            Some(b) => Some(b.as_str()),
            None => None,
        }
    }

    /// The profile names, in order.
    pub fn list_profiles(&self) -> (r: Vec<String>)
        ensures
            r.deep_view() == self.profiles.keys(),
            forall|i: int, j: int|
                0 <= i < j < r@.len() ==> crate::text::chars_lt(
                    #[trigger] r.deep_view()[i],
                    #[trigger] r.deep_view()[j],
                ),
            forall|name: Seq<char>| #[trigger]
                self.profiles.lookup(name) is Some <==> r.deep_view().contains(name),
    {
        self.profiles.names()
    }

    /// The profile called `name`.
    pub fn profile_config(&self, name: &str) -> (r: Result<&ProfileConfig, Error>)
        ensures
            match r {
                Ok(p) => self.profiles.lookup(name@) == Some(*p),
                Err(e) => self.profiles.lookup(name@) is None && e@ == ErrorModel::ProfileNotFound(
                    name@,
                ),
            },
    {
        match self.profiles.get(name) {
            Some(p) => Ok(p),
            None => Err(Error::ProfileNotFound(name.to_owned())),
        }
    }

    /// Whether `name` is a profile.
    pub fn has_profile(&self, name: &str) -> (r: bool)
        ensures
            r == (self.profiles.lookup(name@) is Some),
    {
        self.profiles.contains(name)
    }

    /// The default profile's name, if one is set.
    pub fn default_profile_name(&self) -> (r: Option<&str>)
        ensures
            match r {
                Some(n) => self.default_profile matches Some(d) && d@ == n@,
                None => self.default_profile is None,
            },
    {
        match &self.default_profile {
            Some(d) => Some(d.as_str()),
            None => None,
        }
    }

    /// The key that `input` names from the current directory.
    pub fn resolve_remote(&self, input: &str) -> (r: Result<String, Error>)
        ensures
            match r {
                Ok(key) => spec_resolve_remote_path(self.cwd@, input@) == Some(key@),
                Err(e) => spec_resolve_remote_path(self.cwd@, input@) is None && e@
                    == ErrorModel::PathEscapesRoot,
            },
    {
        resolve_remote_path(self.cwd.as_str(), input)
    }

    /// The key that an upload of `local` goes to.
    pub fn resolve_upload_target(&self, local: &str, remote: Option<&str>) -> (r: Result<
        String,
        Error,
    >)
        ensures
            crate::error::result_view(r) == spec_upload_target(
                self.cwd@,
                local@,
                opt_str_view(remote),
            ),
    {
        let name = match path_file_name(local) {
            Some(n) => n,
            None => return Err(Error::LocalNoFileName),
        };
        let target = match remote {
            Some(r) => {
                let rv = to_chars(r);
                if ends_with_char(&rv, '/') {
                    let mut t = rv;
                    push_str(&mut t, name.as_str());
                    from_chars(&t)
                } else {
                    r.to_owned()
                }
            },
            None => name,
        };
        self.resolve_remote(target.as_str())
    }

    /// The key that an upload of `local` into the remote directory
    /// `remote_dir` goes to.
    pub fn resolve_upload_target_in_dir(&self, local: &str, remote_dir: &str) -> (r: Result<
        String,
        Error,
    >)
        ensures
            crate::error::result_view(r) == spec_upload_target_in_dir(
                self.cwd@,
                local@,
                remote_dir@,
            ),
    {
        let name = match path_file_name(local) {
            Some(n) => n,
            None => return Err(Error::LocalNoFileName),
        };
        let dv = to_chars(remote_dir);
        let mut t = trim_end_char(&dv, '/');
        let ghost base = t@;
        t.push('/');
        push_str(&mut t, name.as_str());
        proof {
            assert(t@ =~= base + seq!['/'] + name@);
        }
        let target = from_chars(&t);
        self.resolve_remote(target.as_str())
    }

    /// The local path that a download of `remote` goes to. `home` is the
    /// value of `HOME`; `local_is_dir` tells whether `local`, with `~`
    /// expanded, is an existing directory.
    pub fn resolve_download_target(
        remote: &str,
        local: Option<&str>,
        home: Option<&str>,
        local_is_dir: bool,
    ) -> (r: Result<String, Error>)
        ensures
            crate::error::result_view(r) == spec_download_target(
                remote@,
                opt_str_view(local),
                opt_str_view(home),
                local_is_dir,
            ),
    {
        let name = match path_file_name(remote) {
            Some(n) => n,
            None => return Err(Error::RemoteNoObjectName),
        };
        match local {
            Some(l) => {
                let p = expand_tilde(l, home);
                if local_is_dir {
                    Ok(join_path(p.as_str(), name.as_str()))
                } else {
                    Ok(p)
                }
            },
            None => Ok(name),
        }
    }

    /// Changes the current directory to `target`; the new directory as
    /// `cwd_display` shows it.
    pub fn change_dir(&mut self, target: &str) -> (r: Result<String, Error>)
        ensures
            match r {
                Ok(display) => spec_resolve_remote_path(old(self).cwd@, target@) matches Some(key)
                    && final(self).cwd@ == spec_cwd_for(key) && display@ == spec_cwd_display(
                    final(self).cwd@,
                ),
                Err(e) => spec_resolve_remote_path(old(self).cwd@, target@) is None && e@
                    == ErrorModel::PathEscapesRoot && final(self).cwd == old(self).cwd,
            },
            final(self).profiles == old(self).profiles,
            final(self).default_profile == old(self).default_profile,
            final(self).profile_name == old(self).profile_name,
            final(self).bucket == old(self).bucket,
    {
        let resolved = resolve_remote_path(self.cwd.as_str(), target)?;
        let rv = to_chars(resolved.as_str());
        if rv.len() == 0 {
            self.cwd = String::new();
        } else {
            let mut c = trim_end_char(&rv, '/');
            c.push('/');
            self.cwd = from_chars(&c);
        }
        Ok(self.cwd_display())
    }

    /// The current directory: `/` at the root, else `/dir`.
    pub fn cwd_display(&self) -> (r: String)
        ensures
            r@ == spec_cwd_display(self.cwd@),
    {
        let cv = to_chars(self.cwd.as_str());
        let mut out: Vec<char> = Vec::new();
        out.push('/');
        if cv.len() == 0 {
            return from_chars(&out);
        }
        let t = trim_end_char(&cv, '/');
        push_all(&mut out, &t);
        from_chars(&out)
    }

    /// Where the shell is: `/` with no profile, `profile:/dir`, or
    /// `profile:/` with no bucket.
    pub fn location_display(&self) -> (r: String)
        ensures
            r@ == spec_location_display(
                crate::command::types::opt_str_view(self.profile_name),
                crate::command::types::opt_str_view(self.bucket),
                self.cwd@,
            ),
    {
        match &self.profile_name {
            None => {
                let mut out: Vec<char> = Vec::new();
                out.push('/');
                from_chars(&out)
            },
            Some(profile) => {
                let mut out = to_chars(profile.as_str());
                out.push(':');
                if self.bucket.is_some() {
                    let d = self.cwd_display();
                    push_str(&mut out, d.as_str());
                } else {
                    out.push('/');
                }
                proof {
                    if self.bucket.is_some() {
                        assert(out@ =~= profile@ + seq![':'] + spec_cwd_display(self.cwd@));
                    } else {
                        assert(out@ =~= profile@ + seq![':', '/']);
                    }
                }
                from_chars(&out)
            },
        }
    }
}

} // verus!
