//! The model of remote paths: `/`-separated segments, and how `.` and `..`
//! act on them.

use vstd::prelude::*;

verus! {

/// `s.split(c)`: the pieces between the occurrences of `c` (one more than
/// their count), built left to right.
pub open spec fn split_on(s: Seq<char>, c: char) -> Seq<Seq<char>>
    decreases s.len(),
{
    if s.len() == 0 {
        seq![Seq::<char>::empty()]
    } else {
        let p = split_on(s.drop_last(), c);
        if s.last() == c {
            p.push(Seq::<char>::empty())
        } else {
            p.update(p.len() - 1, p.last().push(s.last()))
        }
    }
}

/// `parts.join(c)`.
pub open spec fn join_with(parts: Seq<Seq<char>>, c: char) -> Seq<char>
    decreases parts.len(),
{
    if parts.len() == 0 {
        Seq::<char>::empty()
    } else if parts.len() == 1 {
        parts[0]
    } else {
        join_with(parts.drop_last(), c).push(c) + parts.last()
    }
}

/// A segment that names something: not empty, not `.`, not `..`, no `/`.
pub open spec fn is_plain_segment(seg: Seq<char>) -> bool {
    &&& seg.len() > 0
    &&& seg != seq!['.']
    &&& seg != seq!['.', '.']
    &&& !seg.contains('/')
}

/// One segment applied to the stack of directories walked so far: empty
/// segments and `.` stay put, `..` goes up (and fails at the root), any
/// other segment goes down.
pub open spec fn seg_step(st: Seq<Seq<char>>, seg: Seq<char>) -> Option<Seq<Seq<char>>> {
    if seg.len() == 0 || seg == seq!['.'] {
        Some(st)
    } else if seg == seq!['.', '.'] {
        if st.len() == 0 {
            None
        } else {
            Some(st.drop_last())
        }
    } else {
        Some(st.push(seg))
    }
}

/// The segments applied in order from the root, or `None` where a `..`
/// climbs above it.
pub open spec fn normalize_segments(segs: Seq<Seq<char>>) -> Option<Seq<Seq<char>>>
    decreases segs.len(),
{
    if segs.len() == 0 {
        Some(Seq::<Seq<char>>::empty())
    } else {
        match normalize_segments(segs.drop_last()) {
            Some(st) => seg_step(st, segs.last()),
            None => None,
        }
    }
}

/// A key in canonical form: empty (the bucket root), or plain segments
/// joined by single `/`s, with no `/` at either end.
pub open spec fn is_canonical_key(r: Seq<char>) -> bool {
    r.len() == 0 || forall|i: int|
        0 <= i < split_on(r, '/').len() ==> #[trigger] is_plain_segment(split_on(r, '/')[i])
}

/// All entries are plain segments.
pub open spec fn all_plain(parts: Seq<Seq<char>>) -> bool {
    forall|i: int| 0 <= i < parts.len() ==> #[trigger] is_plain_segment(parts[i])
}

/// One step of `split_on`, read left to right.
pub proof fn lemma_split_step(s: Seq<char>, i: int, c: char)
    requires
        0 <= i < s.len(),
    ensures
        split_on(s.take(i + 1), c) == if s[i] == c {
            split_on(s.take(i), c).push(Seq::<char>::empty())
        } else {
            split_on(s.take(i), c).update(
                split_on(s.take(i), c).len() - 1,
                split_on(s.take(i), c).last().push(s[i]),
            )
        },
{
    assert(s.take(i + 1).drop_last() =~= s.take(i));
    assert(s.take(i + 1).last() == s[i]);
}

/// `split_on` yields at least one piece, and no piece holds the separator.
pub proof fn lemma_split_basics(s: Seq<char>, c: char)
    ensures
        split_on(s, c).len() >= 1,
        forall|i: int| 0 <= i < split_on(s, c).len() ==> !(#[trigger] split_on(s, c)[i]).contains(c),
    decreases s.len(),
{
    if s.len() > 0 {
        lemma_split_basics(s.drop_last(), c);
        let p = split_on(s.drop_last(), c);
        if s.last() != c {
            assert forall|i: int| 0 <= i < split_on(s, c).len() implies !(
            #[trigger] split_on(s, c)[i]).contains(c) by {
                if i == p.len() - 1 {
                    let q = p.last().push(s.last());
                    if q.contains(c) {
                        let k = choose|k: int| 0 <= k < q.len() && q[k] == c;
                        if k < p.last().len() {
                            assert(p.last()[k] == c);
                        }
                    }
                }
            }
        } else {
            assert forall|i: int| 0 <= i < split_on(s, c).len() implies !(
            #[trigger] split_on(s, c)[i]).contains(c) by {
                if i < p.len() {
                    assert(split_on(s, c)[i] == p[i]);
                }
            }
        }
    }
}

/// A sequence without the separator is a single piece.
pub proof fn lemma_split_no_sep(s: Seq<char>, c: char)
    requires
        !s.contains(c),
    ensures
        split_on(s, c) == seq![s],
    decreases s.len(),
{
    if s.len() == 0 {
        assert(s =~= Seq::<char>::empty());
    } else {
        assert(!s.drop_last().contains(c)) by {
            if s.drop_last().contains(c) {
                let k = choose|k: int| 0 <= k < s.drop_last().len() && s.drop_last()[k] == c;
                assert(s[k] == c);
            }
        }
        lemma_split_no_sep(s.drop_last(), c);
        assert(s.last() != c) by {
            assert(s[s.len() - 1] == s.last());
        }
        assert(s.drop_last().push(s.last()) =~= s);
        assert(split_on(s, c) =~= seq![s]);
    }
}

/// Splitting around a separator splits each side.
pub proof fn lemma_split_concat(a: Seq<char>, b: Seq<char>, c: char)
    ensures
        split_on(a + seq![c] + b, c) == split_on(a, c) + split_on(b, c),
    decreases b.len(),
{
    lemma_split_basics(b, c);
    if b.len() == 0 {
        assert(a + seq![c] + b =~= a.push(c));
        assert((a.push(c)).drop_last() =~= a);
        assert(split_on(a, c) + split_on(b, c) =~= split_on(a, c).push(Seq::<char>::empty()));
    } else {
        let s = a + seq![c] + b;
        lemma_split_concat(a, b.drop_last(), c);
        assert(s.drop_last() =~= a + seq![c] + b.drop_last());
        assert(s.last() == b.last());
        lemma_split_basics(b.drop_last(), c);
        let pa = split_on(a, c);
        let pb = split_on(b.drop_last(), c);
        if b.last() == c {
            assert((pa + pb).push(Seq::<char>::empty()) =~= pa + pb.push(Seq::<char>::empty()));
        } else {
            assert((pa + pb).update((pa + pb).len() - 1, (pa + pb).last().push(b.last())) =~= pa
                + pb.update(pb.len() - 1, pb.last().push(b.last())));
        }
    }
}

/// Splitting a join of separator-free pieces gives the pieces back.
pub proof fn lemma_split_join(parts: Seq<Seq<char>>, c: char)
    requires
        parts.len() >= 1,
        forall|i: int| 0 <= i < parts.len() ==> !(#[trigger] parts[i]).contains(c),
    ensures
        split_on(join_with(parts, c), c) == parts,
    decreases parts.len(),
{
    if parts.len() == 1 {
        lemma_split_no_sep(parts[0], c);
        assert(seq![parts[0]] =~= parts);
    } else {
        let init = parts.drop_last();
        lemma_split_join(init, c);
        lemma_split_no_sep(parts.last(), c);
        assert(join_with(parts, c) =~= join_with(init, c) + seq![c] + parts.last());
        lemma_split_concat(join_with(init, c), parts.last(), c);
        assert(init + seq![parts.last()] =~= parts);
    }
}

/// Joining the pieces of a split gives the sequence back.
pub proof fn lemma_join_split(s: Seq<char>, c: char)
    ensures
        join_with(split_on(s, c), c) == s,
    decreases s.len(),
{
    if s.len() > 0 {
        let p = split_on(s.drop_last(), c);
        lemma_join_split(s.drop_last(), c);
        lemma_split_basics(s.drop_last(), c);
        if s.last() == c {
            assert(split_on(s, c).drop_last() =~= p);
            assert(join_with(split_on(s, c), c) =~= s.drop_last().push(c));
            assert(s.drop_last().push(c) =~= s);
        } else {
            let q = split_on(s, c);
            if p.len() == 1 {
                assert(join_with(q, c) =~= p[0].push(s.last()));
                assert(s.drop_last().push(s.last()) =~= s);
            } else {
                assert(q.drop_last() =~= p.drop_last());
                assert(join_with(p, c) == join_with(p.drop_last(), c).push(c) + p.last());
                assert(join_with(q, c) =~= join_with(p, c).push(s.last()));
                assert(s.drop_last().push(s.last()) =~= s);
            }
        }
    }
}

/// The complete pieces of a prefix are the first pieces of the whole.
pub proof fn lemma_split_prefix(s: Seq<char>, j: int, c: char)
    requires
        0 <= j <= s.len(),
    ensures
        split_on(s.take(j), c).len() <= split_on(s, c).len(),
        split_on(s.take(j), c).drop_last() == split_on(s, c).take(
            split_on(s.take(j), c).len() - 1,
        ),
    decreases s.len() - j,
{
    lemma_split_basics(s.take(j), c);
    if j == s.len() {
        assert(s.take(j) =~= s);
    } else {
        lemma_split_prefix(s, j + 1, c);
        lemma_split_step(s, j, c);
        lemma_split_basics(s.take(j + 1), c);
        let p = split_on(s.take(j), c);
        let q = split_on(s.take(j + 1), c);
        if s[j] == c {
            assert(q.drop_last() =~= p);
            assert(split_on(s, c).take(p.len() - 1) =~= split_on(s, c).take(q.len() - 1).take(
                p.len() - 1,
            ));
            assert(p.drop_last() =~= q.drop_last().take(p.len() - 1));
        } else {
            assert(q.drop_last() =~= p.drop_last());
        }
    }
}

/// A failure part of the way through fails the whole walk.
pub proof fn lemma_normalize_none_prefix(segs: Seq<Seq<char>>, k: int)
    requires
        0 <= k <= segs.len(),
        normalize_segments(segs.take(k)) is None,
    ensures
        normalize_segments(segs) is None,
    decreases segs.len() - k,
{
    if k == segs.len() {
        assert(segs.take(k) =~= segs);
    } else {
        assert(segs.drop_last().take(k) =~= segs.take(k));
        lemma_normalize_none_prefix(segs.drop_last(), k);
    }
}

/// Plain segments only go down.
pub proof fn lemma_normalize_plain(a: Seq<Seq<char>>, b: Seq<Seq<char>>)
    requires
        all_plain(b),
        normalize_segments(a) is Some,
    ensures
        normalize_segments(a + b) == Some(normalize_segments(a)->0 + b),
    decreases b.len(),
{
    if b.len() == 0 {
        assert(a + b =~= a);
        assert(normalize_segments(a)->0 + b =~= normalize_segments(a)->0);
    } else {
        let bi = b.drop_last();
        assert(all_plain(bi)) by {
            assert forall|i: int| 0 <= i < bi.len() implies #[trigger] is_plain_segment(bi[i]) by {
                assert(bi[i] == b[i]);
            }
        }
        lemma_normalize_plain(a, bi);
        assert((a + b).drop_last() =~= a + bi);
        assert((a + b).last() == b.last());
        assert(is_plain_segment(b[b.len() - 1]));
        assert((normalize_segments(a)->0 + bi).push(b.last()) =~= normalize_segments(a)->0 + b);
    }
}

/// Walking from the root keeps only plain segments on the stack.
pub proof fn lemma_normalize_result_plain(segs: Seq<Seq<char>>)
    requires
        forall|i: int| 0 <= i < segs.len() ==> !(#[trigger] segs[i]).contains('/'),
    ensures
        normalize_segments(segs) is Some ==> all_plain(normalize_segments(segs)->0),
    decreases segs.len(),
{
    if segs.len() > 0 {
        let init = segs.drop_last();
        assert forall|i: int| 0 <= i < init.len() implies !(#[trigger] init[i]).contains('/') by {
            assert(init[i] == segs[i]);
        }
        lemma_normalize_result_plain(init);
        if let Some(st) = normalize_segments(init) {
            if let Some(st2) = seg_step(st, segs.last()) {
                assert(!segs[segs.len() - 1].contains('/'));
                assert forall|i: int| 0 <= i < st2.len() implies #[trigger] is_plain_segment(
                    st2[i],
                ) by {
                    if i < st.len() {
                        assert(st2[i] == st[i]);
                    }
                }
            }
        }
    }
}

/// A join of plain segments is canonical.
pub proof fn lemma_join_plain_canonical(parts: Seq<Seq<char>>)
    requires
        all_plain(parts),
    ensures
        is_canonical_key(join_with(parts, '/')),
{
    if parts.len() > 0 {
        assert forall|i: int| 0 <= i < parts.len() implies !(#[trigger] parts[i]).contains('/') by {
            assert(is_plain_segment(parts[i]));
        }
        lemma_split_join(parts, '/');
    }
}

/// The pieces of a canonical key are plain (none when it is empty).
pub proof fn lemma_canonical_parts(r: Seq<char>)
    requires
        is_canonical_key(r),
    ensures
        r.len() > 0 ==> all_plain(split_on(r, '/')),
        r.len() == 0 ==> split_on(r, '/') == seq![Seq::<char>::empty()],
{
}

/// Joining with a separator in between.
pub proof fn lemma_join_push(parts: Seq<Seq<char>>, x: Seq<char>, c: char)
    requires
        parts.len() >= 1,
    ensures
        join_with(parts.push(x), c) == join_with(parts, c).push(c) + x,
{
    assert(parts.push(x).drop_last() =~= parts);
}

/// `s.split(c)` as strings.
pub fn split_string(s: &str, c: char) -> (r: Vec<String>)
    ensures
        crate::text::strings_view(r@) == split_on(s@, c),
{
    let v = crate::text::to_chars(s);
    let mut out: Vec<String> = Vec::new();
    let mut cur: Vec<char> = Vec::new();
    let mut i: usize = 0;
    proof {
        assert(v@.take(0) =~= Seq::<char>::empty());
        assert(crate::text::strings_view(out@).push(cur@) =~= seq![Seq::<char>::empty()]);
    }
    while i < v.len()
        invariant
            i <= v@.len(),
            v@ == s@,
            split_on(v@.take(i as int), c) == crate::text::strings_view(out@).push(cur@),
        decreases v@.len() - i,
    {
        proof {
            lemma_split_step(v@, i as int, c);
        }
        let ghost done = crate::text::strings_view(out@);
        if v[i] == c {
            let ghost piece = cur@;
            out.push(crate::text::from_chars(&cur));
            cur = Vec::new();
            proof {
                assert(crate::text::strings_view(out@) =~= done.push(piece));
                assert(crate::text::strings_view(out@).push(cur@) =~= done.push(piece).push(
                    Seq::<char>::empty(),
                ));
            }
        } else {
            let ghost old_cur = cur@;
            cur.push(v[i]);
            proof {
                assert(done.push(old_cur).update(done.len() as int, old_cur.push(v@[i as int]))
                    =~= done.push(cur@));
            }
        }
        i = i + 1;
    }
    proof {
        assert(v@.take(i as int) =~= v@);
    }
    let ghost done = crate::text::strings_view(out@);
    let ghost last = cur@;
    out.push(crate::text::from_chars(&cur));
    proof {
        assert(crate::text::strings_view(out@) =~= done.push(last));
    }
    out
}

} // verus!
