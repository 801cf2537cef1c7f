//! The model of local (Unix) paths as `std::path::Path` reads them: the
//! final component, the parent, and joining.

use vstd::prelude::*;

use crate::text::{ends_with_ch, from_chars, push_all, starts_with_ch, sub_chars, to_chars};

verus! {

/// The last component of a path that counts: nothing yet, a `..`, or a name
/// (its start and end).
pub ghost enum Tail {
    Nothing,
    Parent,
    Name(int, int),
}

/// Where the component that `p` ends in begins: just after its last `/`.
pub open spec fn seg_start(p: Seq<char>) -> int
    decreases p.len(),
{
    if p.len() == 0 {
        0
    } else if p.last() == '/' {
        p.len() as int
    } else {
        seg_start(p.drop_last())
    }
}

/// The component `seg` (at `start..end`) after `t`: empty components and `.`
/// are skipped, `..` and names replace what came before.
pub open spec fn classify(t: Tail, seg: Seq<char>, start: int, end: int) -> Tail {
    if seg.len() == 0 || seg == seq!['.'] {
        t
    } else if seg == seq!['.', '.'] {
        Tail::Parent
    } else {
        Tail::Name(start, end)
    }
}

/// The last counting component among those that a `/` has closed.
pub open spec fn closed_tail(p: Seq<char>) -> Tail
    decreases p.len(),
{
    if p.len() == 0 {
        Tail::Nothing
    } else if p.last() == '/' {
        let q = p.drop_last();
        classify(closed_tail(q), q.subrange(seg_start(q), q.len() as int), seg_start(q), q.len() as int)
    } else {
        closed_tail(p.drop_last())
    }
}

/// The last counting component of `p`.
pub open spec fn final_tail(p: Seq<char>) -> Tail {
    classify(closed_tail(p), p.subrange(seg_start(p), p.len() as int), seg_start(p), p.len() as int)
}

/// `Path::file_name`: the final component when it is a name; `None` for an
/// empty path, the root, `.` or a path ending in `..`.
pub open spec fn file_name(p: Seq<char>) -> Option<Seq<char>> {
    match final_tail(p) {
        Tail::Name(s, e) => Some(p.subrange(s, e)),
        _ => None,
    }
}

/// What comes before the body of a path: the root `/`, or a leading `.`
/// component.
pub open spec fn before_body(p: Seq<char>) -> int {
    if starts_with_ch(p, '/') {
        1
    } else if p == seq!['.'] || (p.len() >= 2 && p[0] == '.' && p[1] == '/') {
        1
    } else {
        0
    }
}

/// `t` without trailing separators and `.` components, never cutting into
/// the first `lbb` characters.
pub open spec fn trim_tail(t: Seq<char>, lbb: int) -> Seq<char>
    decreases t.len(),
{
    if t.len() == 0 || t.len() <= lbb {
        t
    } else if t.last() == '/' {
        trim_tail(t.drop_last(), lbb)
    } else if t.last() == '.' && (t.len() - 1 == lbb || t[t.len() - 2] == '/') {
        trim_tail(t.drop_last(), lbb)
    } else {
        t
    }
}

/// `Path::parent` of a path whose final component is a name.
pub open spec fn parent_of_name(p: Seq<char>, start: int) -> Seq<char> {
    trim_tail(p.take(start), before_body(p))
}

/// `PathBuf::push(n)`: an absolute `n` replaces; otherwise `n` goes after a
/// separator, unless `base` is empty or already ends in one.
pub open spec fn push_path(base: Seq<char>, n: Seq<char>) -> Seq<char> {
    if starts_with_ch(n, '/') {
        n
    } else if base.len() == 0 || ends_with_ch(base, '/') {
        base + n
    } else {
        base + seq!['/'] + n
    }
}

/// `Path::with_file_name(n)`: the final name replaced by `n`, or `n` pushed
/// where there is no final name.
pub open spec fn with_file_name(p: Seq<char>, n: Seq<char>) -> Seq<char> {
    match final_tail(p) {
        Tail::Name(s, e) => push_path(parent_of_name(p, s), n),
        _ => push_path(p, n),
    }
}

/// Facts on the positions that the model speaks of.
pub proof fn lemma_seg_start(p: Seq<char>)
    ensures
        0 <= seg_start(p) <= p.len(),
        forall|k: int| seg_start(p) <= k < p.len() ==> p[k] != '/',
        seg_start(p) > 0 ==> p[seg_start(p) - 1] == '/',
    decreases p.len(),
{
    if p.len() > 0 && p.last() != '/' {
        lemma_seg_start(p.drop_last());
        assert forall|k: int| seg_start(p) <= k < p.len() implies p[k] != '/' by {
            if k < p.len() - 1 {
                assert(p[k] == p.drop_last()[k]);
            }
        }
    }
}

/// Names lie inside the path.
pub proof fn lemma_tail_bounds(p: Seq<char>)
    ensures
        closed_tail(p) matches Tail::Name(s, e) ==> 0 <= s <= e <= p.len(),
        final_tail(p) matches Tail::Name(s, e) ==> 0 <= s <= e <= p.len(),
    decreases p.len(),
{
    lemma_seg_start(p);
    if p.len() > 0 {
        lemma_tail_bounds(p.drop_last());
        lemma_seg_start(p.drop_last());
    }
}

/// Exec mirror of [`Tail`].
enum TailPos {
    Nothing,
    Parent,
    Name(usize, usize),
}

/// The model of a [`TailPos`].
spec fn tail_view(t: TailPos) -> Tail {
    match t {
        TailPos::Nothing => Tail::Nothing,
        TailPos::Parent => Tail::Parent,
        TailPos::Name(s, e) => Tail::Name(s as int, e as int),
    }
}

/// The component `p[start..end]` after `t`.
fn classify_exec(p: &[char], t: TailPos, start: usize, end: usize) -> (r: TailPos)
    requires
        start <= end <= p@.len(),
    ensures
        tail_view(r) == classify(
            tail_view(t),
            p@.subrange(start as int, end as int),
            start as int,
            end as int,
        ),
        match r {
            TailPos::Name(s, e) => (s == start && e == end) || r == t,
            _ => true,
        },
{
    let ghost seg = p@.subrange(start as int, end as int);
    if end == start {
        return t;
    }
    if end - start == 1 && p[start] == '.' {
        proof {
            assert(seg =~= seq!['.']);
        }
        return t;
    }
    if end - start == 2 && p[start] == '.' && p[start + 1] == '.' {
        proof {
            assert(seg =~= seq!['.', '.']);
        }
        return TailPos::Parent;
    }
    proof {
        assert(seg.len() == end - start);
        assert(seq!['.'].len() == 1);
        assert(seq!['.', '.'].len() == 2);
        if end - start == 1 {
            assert(seg[0] == p@[start as int]);
            assert(seg != seq!['.']);
        }
        if end - start == 2 {
            assert(seg[0] == p@[start as int]);
            assert(seg[1] == p@[start + 1]);
            assert(seg != seq!['.', '.']);
        }
    }
    TailPos::Name(start, end)
}

/// The final component of `p`: `Some((start, end))` when it is a name.
fn final_name_range(p: &[char]) -> (r: Option<(usize, usize)>)
    ensures
        match r {
            Some((s, e)) => final_tail(p@) == Tail::Name(s as int, e as int) && s <= e <= p@.len(),
            None => !(final_tail(p@) is Name),
        },
{
    let mut t = TailPos::Nothing;
    let mut start: usize = 0;
    let mut i: usize = 0;
    while i < p.len()
        invariant
            i <= p@.len(),
            start <= i,
            start as int == seg_start(p@.take(i as int)),
            tail_view(t) == closed_tail(p@.take(i as int)),
            match t {
                TailPos::Name(s, e) => s <= e <= i,
                _ => true,
            },
        decreases p@.len() - i,
    {
        let ghost q = p@.take(i as int);
        proof {
            assert(p@.take(i + 1).drop_last() =~= q);
            assert(p@.take(i + 1).last() == p@[i as int]);
            assert(q.subrange(start as int, i as int) =~= p@.subrange(start as int, i as int));
        }
        if p[i] == '/' {
            t = classify_exec(p, t, start, i);
            start = i + 1;
        }
        i = i + 1;
    }
    proof {
        assert(p@.take(i as int) =~= p@);
    }
    let n = p.len();
    match classify_exec(p, t, start, n) {
        TailPos::Name(s, e) => Some((s, e)),
        _ => None,
    }
}

/// `Path::file_name` of `p`.
pub fn path_file_name(p: &str) -> (r: Option<String>)
    ensures
        match r {
            Some(n) => file_name(p@) == Some(n@),
            None => file_name(p@) is None,
        },
{
    let v = to_chars(p);
    match final_name_range(&v) {
        Some((s, e)) => {
            let name = sub_chars(&v, s, e);
            Some(from_chars(&name))
        },
        None => None,
    }
}

/// The length of what comes before the body of `p`.
fn before_body_len(p: &[char]) -> (r: usize)
    ensures
        r as int == before_body(p@),
{
    if p.len() > 0 && p[0] == '/' {
        1
    } else if p.len() == 1 && p[0] == '.' {
        proof {
            assert(p@ =~= seq!['.']);
        }
        1
    } else if p.len() >= 2 && p[0] == '.' && p[1] == '/' {
        1
    } else {
        proof {
            if p@.len() == 1 {
                assert(p@ != seq!['.']) by {
                    assert(p@[0] != '.');
                }
            }
        }
        0
    }
}

/// `trim_tail(t, lbb)` as a length of `t`.
fn trim_tail_len(t: &[char], lbb: usize) -> (r: usize)
    ensures
        r <= t@.len(),
        t@.take(r as int) == trim_tail(t@, lbb as int),
{
    let mut n = t.len();
    proof {
        assert(t@.take(n as int) =~= t@);
    }
    while n > lbb && (t[n - 1] == '/' || (t[n - 1] == '.' && (n - 1 == lbb || (n >= 2 && t[n
        - 2] == '/'))))
        invariant
            n <= t@.len(),
            trim_tail(t@.take(n as int), lbb as int) == trim_tail(t@, lbb as int),
        decreases n,
    {
        proof {
            let u = t@.take(n as int);
            assert(u.drop_last() =~= t@.take(n - 1));
            assert(u.last() == t@[n - 1]);
            if n >= 2 {
                assert(u[n - 2] == t@[n - 2]);
            }
        }
        n = n - 1;
    }
    proof {
        let u = t@.take(n as int);
        if n > lbb {
            assert(u.last() == t@[n - 1]);
            if n >= 2 {
                assert(u[n - 2] == t@[n - 2]);
            }
        }
    }
    n
}

/// `push_path(base, n)`.
pub fn push_path_chars(base: &[char], n: &[char]) -> (r: Vec<char>)
    ensures
        r@ == push_path(base@, n@),
{
    if n.len() > 0 && n[0] == '/' {
        return sub_chars(n, 0, n.len());
    }
    let mut out = sub_chars(base, 0, base.len());
    proof {
        assert(out@ =~= base@);
    }
    if base.len() > 0 && base[base.len() - 1] != '/' {
        out.push('/');
    }
    push_all(&mut out, n);
    out
}

/// `Path::join`.
pub fn join_path(base: &str, n: &str) -> (r: String)
    ensures
        r@ == push_path(base@, n@),
{
    let b = to_chars(base);
    let m = to_chars(n);
    let r = push_path_chars(&b, &m);
    from_chars(&r)
}

/// `Path::with_file_name(n)`.
pub fn path_with_file_name(p: &str, n: &str) -> (r: String)
    ensures
        r@ == with_file_name(p@, n@),
{
    let v = to_chars(p);
    let m = to_chars(n);
    match final_name_range(&v) {
        Some((s, e)) => {
            let lbb = before_body_len(&v);
            let head = sub_chars(&v, 0, s);
            let k = trim_tail_len(&head, lbb);
            let parent = sub_chars(&head, 0, k);
            proof {
                assert(head@ =~= p@.take(s as int));
                assert(parent@ =~= head@.take(k as int));
            }
            let r = push_path_chars(&parent, &m);
            from_chars(&r)
        },
        None => {
            let r = push_path_chars(&v, &m);
            from_chars(&r)
        },
    }
}

/// `Path::parent` and `Path::file_name` of a path whose final component is a
/// name: `Some((parent, name))`, else `None`.
pub fn parent_and_name(p: &str) -> (r: Option<(String, String)>)
    ensures
        match r {
            Some((parent, name)) => final_tail(p@) matches Tail::Name(s, e) && parent@
                == parent_of_name(p@, s) && name@ == p@.subrange(s, e),
            None => !(final_tail(p@) is Name),
        },
{
    let v = to_chars(p);
    match final_name_range(&v) {
        Some((s, e)) => {
            let lbb = before_body_len(&v);
            let head = sub_chars(&v, 0, s);
            let k = trim_tail_len(&head, lbb);
            let parent = sub_chars(&head, 0, k);
            let name = sub_chars(&v, s, e);
            proof {
                assert(head@ =~= p@.take(s as int));
                assert(parent@ =~= head@.take(k as int));
            }
            Some((from_chars(&parent), from_chars(&name)))
        },
        None => None,
    }
}

} // verus!
