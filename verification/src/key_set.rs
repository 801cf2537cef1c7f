//! Sorted lists of strings: what `sort`, and `sort` followed by `dedup`,
//! make of a list of strings.

use vstd::prelude::*;

use crate::sorting::{group, lemma_group_insert, lemma_group_push};
use crate::text::{
    chars_eq, chars_less, chars_lt, lemma_chars_lt_irreflexive,
    lemma_chars_lt_total, lemma_chars_lt_transitive, strings_view, to_chars,
};

verus! {

/// Each string sorts strictly before the next: sorted, and nothing twice.
pub open spec fn strictly_sorted(s: Seq<Seq<char>>) -> bool {
    forall|i: int, j: int| 0 <= i < j < s.len() ==> chars_lt(#[trigger] s[i], #[trigger] s[j])
}

/// `a` and `b` hold the same strings.
pub open spec fn same_members(a: Seq<Seq<char>>, b: Seq<Seq<char>>) -> bool {
    forall|x: Seq<char>| a.contains(x) <==> b.contains(x)
}

/// Two lists that are sorted, each string once, and hold the same strings
/// are the same list: `sort` followed by `dedup` has exactly one outcome.
pub proof fn law_sorted_sets_are_equal(a: Seq<Seq<char>>, b: Seq<Seq<char>>)
    requires
        strictly_sorted(a),
        strictly_sorted(b),
        same_members(a, b),
    ensures
        a == b,
    decreases a.len(),
{
    if a.len() == 0 {
        if b.len() > 0 {
            assert(b.contains(b[0]));
        }
        assert(a =~= b);
    } else {
        assert(a.contains(a[0]));
        assert(b.contains(a[0]));
        assert(b.len() > 0);
        assert(b.contains(b[0]));
        assert(a.contains(b[0]));
        let k = choose|k: int| 0 <= k < b.len() && b[k] == a[0];
        let m = choose|m: int| 0 <= m < a.len() && a[m] == b[0];
        if k > 0 {
            assert(chars_lt(b[0], b[k]));
            if m > 0 {
                assert(chars_lt(a[0], a[m]));
                lemma_chars_lt_transitive(b[0], a[0], b[0]);
            }
            lemma_chars_lt_irreflexive(b[0]);
        }
        assert(a[0] == b[0]);
        let at = a.drop_first();
        let bt = b.drop_first();
        assert forall|x: Seq<char>| at.contains(x) <==> bt.contains(x) by {
            if at.contains(x) {
                let i = choose|i: int| 0 <= i < at.len() && at[i] == x;
                assert(a[i + 1] == x);
                assert(chars_lt(a[0], x));
                assert(b.contains(x));
                let j = choose|j: int| 0 <= j < b.len() && b[j] == x;
                if j == 0 {
                    lemma_chars_lt_irreflexive(x);
                }
                assert(bt[j - 1] == x);
            }
            if bt.contains(x) {
                let i = choose|i: int| 0 <= i < bt.len() && bt[i] == x;
                assert(b[i + 1] == x);
                assert(chars_lt(b[0], x));
                assert(a.contains(x));
                let j = choose|j: int| 0 <= j < a.len() && a[j] == x;
                if j == 0 {
                    lemma_chars_lt_irreflexive(x);
                }
                assert(at[j - 1] == x);
            }
        }
        assert forall|i: int, j: int| 0 <= i < j < at.len() implies chars_lt(
            #[trigger] at[i],
            #[trigger] at[j],
        ) by {
            assert(at[i] == a[i + 1] && at[j] == a[j + 1]);
        }
        assert forall|i: int, j: int| 0 <= i < j < bt.len() implies chars_lt(
            #[trigger] bt[i],
            #[trigger] bt[j],
        ) by {
            assert(bt[i] == b[i + 1] && bt[j] == b[j + 1]);
        }
        law_sorted_sets_are_equal(at, bt);
        assert(a =~= seq![a[0]] + at);
        assert(b =~= seq![b[0]] + bt);
    }
}

/// Adds `x` to the sorted set `out`, where it is not there yet.
pub fn insert_unique(out: &mut Vec<String>, x: String)
    requires
        strictly_sorted(strings_view(old(out)@)),
    ensures
        strictly_sorted(strings_view(final(out)@)),
        forall|y: Seq<char>|
            strings_view(final(out)@).contains(y) <==> (strings_view(old(out)@).contains(y) || y
                == x@),
{
    let ghost before = strings_view(out@);
    let xc = to_chars(x.as_str());
    let mut p: usize = 0;
    while p < out.len() && key_less(&out[p], &xc)
        invariant
            p <= out@.len(),
            before == strings_view(out@),
            xc@ == x@,
            forall|a: int| 0 <= a < p ==> chars_lt(#[trigger] before[a], x@),
        decreases out@.len() - p,
    {
        p = p + 1;
    }
    if p < out.len() && key_equal(&out[p], &xc) {
        proof {
            assert(before[p as int] == x@);
        }
        return ;
    }
    proof {
        if p < out@.len() {
            lemma_chars_lt_total(before[p as int], x@);
            assert(chars_lt(x@, before[p as int]));
            assert forall|b: int| p <= b < before.len() implies chars_lt(x@, #[trigger] before[b]) by {
                if b > p {
                    lemma_chars_lt_transitive(x@, before[p as int], before[b]);
                }
            }
        }
    }
    let ghost xv = x@;
    out.insert(p, x);
    proof {
        let s = strings_view(out@);
        assert(s =~= before.insert(p as int, xv));
        assert forall|a: int, b: int| 0 <= a < b < s.len() implies chars_lt(
            #[trigger] s[a],
            #[trigger] s[b],
        ) by {
            if b < p {
            } else if b == p {
                assert(s[a] == before[a]);
            } else if a == p {
                assert(s[b] == before[b - 1]);
            } else if a < p {
                assert(s[a] == before[a] && s[b] == before[b - 1]);
                lemma_chars_lt_transitive(before[a], xv, before[b - 1]);
            } else {
                assert(s[a] == before[a - 1] && s[b] == before[b - 1]);
            }
        }
        assert forall|y: Seq<char>| s.contains(y) <==> (before.contains(y) || y == xv) by {
            if s.contains(y) {
                let k = choose|k: int| 0 <= k < s.len() && s[k] == y;
                if k < p {
                    assert(before[k] == y);
                } else if k > p {
                    assert(before[k - 1] == y);
                }
            }
            if before.contains(y) {
                let k = choose|k: int| 0 <= k < before.len() && before[k] == y;
                if k < p {
                    assert(s[k] == y);
                } else {
                    assert(s[k + 1] == y);
                }
            }
            if y == xv {
                assert(s[p as int] == y);
            }
        }
    }
}

/// `a` sorts strictly before `b`.
fn key_less(a: &String, b: &Vec<char>) -> (r: bool)
    ensures
        r == chars_lt(a@, b@),
{
    let ac = to_chars(a.as_str());
    chars_less(&ac, b)
}

/// `a` and `b` are the same string.
fn key_equal(a: &String, b: &Vec<char>) -> (r: bool)
    ensures
        r == (a@ == b@),
{
    let ac = to_chars(a.as_str());
    chars_eq(&ac, b)
}

/// The strings of `v` sorted, each once (`sort` then `dedup`).
pub fn sorted_unique(v: Vec<String>) -> (r: Vec<String>)
    ensures
        strictly_sorted(strings_view(r@)),
        same_members(strings_view(r@), strings_view(v@)),
{
    let mut out: Vec<String> = Vec::new();
    let mut rest = v;
    let ghost all = strings_view(rest@);
    let n = rest.len();
    let mut i: usize = 0;
    proof {
        assert(strings_view(out@) =~= Seq::<Seq<char>>::empty());
        assert(all.skip(0) =~= all);
    }
    while i < n
        invariant
            n == all.len(),
            i <= n,
            rest@.len() == n - i,
            strings_view(rest@) == all.skip(i as int),
            strictly_sorted(strings_view(out@)),
            forall|y: Seq<char>| strings_view(out@).contains(y) <==> all.take(i as int).contains(y),
        decreases n - i,
    {
        let ghost rest_before = rest@;
        let x = rest.remove(0);
        proof {
            assert(strings_view(rest_before)[0] == rest_before[0]@);
            assert(x@ == all[i as int]);
            assert forall|t: int| 0 <= t < rest@.len() implies #[trigger] strings_view(rest@)[t]
                == all.skip(i + 1)[t] by {
                assert(rest@[t] == rest_before[t + 1]);
                assert(strings_view(rest_before)[t + 1] == rest_before[t + 1]@);
            }
            assert(strings_view(rest@) =~= all.skip(i + 1));
            assert(all.take(i + 1) =~= all.take(i as int).push(x@));
            assert forall|y: Seq<char>| all.take(i + 1).contains(y) <==> (all.take(
                i as int,
            ).contains(y) || y == x@) by {
                let t = all.take(i as int);
                let u = all.take(i + 1);
                if u.contains(y) {
                    let k = choose|k: int| 0 <= k < u.len() && u[k] == y;
                    if k < i {
                        assert(t[k] == y);
                    }
                }
                if t.contains(y) {
                    let k = choose|k: int| 0 <= k < t.len() && t[k] == y;
                    assert(u[k] == y);
                }
                if y == x@ {
                    assert(u[i as int] == y);
                }
            }
        }
        let ghost out_before = strings_view(out@);
        let ghost xv = x@;
        insert_unique(&mut out, x);
        proof {
            assert forall|y: Seq<char>| strings_view(out@).contains(y) <==> all.take(
                i + 1,
            ).contains(y) by {
                assert(strings_view(out@).contains(y) <==> (out_before.contains(y) || y == xv));
                assert(out_before.contains(y) <==> all.take(i as int).contains(y));
            }
        }
        i = i + 1;
    }
    proof {
        assert(all.take(n as int) =~= all);
    }
    out
}

/// Sorted, with equal strings side by side.
pub open spec fn sorted(s: Seq<Seq<char>>) -> bool {
    forall|i: int, j: int| 0 <= i < j < s.len() ==> !chars_lt(#[trigger] s[j], #[trigger] s[i])
}

/// A string as its own sort key.
pub open spec fn itself() -> spec_fn(Seq<char>) -> Seq<char> {
    |s: Seq<char>| s
}

/// Inserts `x` into the sorted list `out`, after the strings that do not
/// sort after it.
fn insert_sorted(out: &mut Vec<String>, x: String)
    requires
        sorted(strings_view(old(out)@)),
    ensures
        sorted(strings_view(final(out)@)),
        forall|k: Seq<char>| #[trigger]
            group(strings_view(final(out)@), itself(), k) == group(
                strings_view(old(out)@).push(x@),
                itself(),
                k,
            ),
{
    let ghost before = strings_view(out@);
    let xc = to_chars(x.as_str());
    let mut p: usize = 0;
    while p < out.len() && !key_greater(&out[p], &xc)
        invariant
            p <= out@.len(),
            before == strings_view(out@),
            xc@ == x@,
            forall|a: int| 0 <= a < p ==> !chars_lt(x@, #[trigger] before[a]),
        decreases out@.len() - p,
    {
        p = p + 1;
    }
    proof {
        assert forall|j: int| p <= j < before.len() implies (itself())(#[trigger] before[j]) != (
        itself())(x@) by {
            assert(chars_lt(x@, before[p as int]));
            if j > p {
                assert(!chars_lt(before[j], before[p as int]));
                lemma_chars_lt_total(before[j], before[p as int]);
                if chars_lt(before[p as int], before[j]) {
                    lemma_chars_lt_transitive(x@, before[p as int], before[j]);
                }
            }
            lemma_chars_lt_irreflexive(x@);
        }
        lemma_group_insert(before, p as int, x@, itself());
    }
    let ghost xv = x@;
    out.insert(p, x);
    proof {
        let s = strings_view(out@);
        assert(s =~= before.insert(p as int, xv));
        assert forall|a: int, b: int| 0 <= a < b < s.len() implies !chars_lt(
            #[trigger] s[b],
            #[trigger] s[a],
        ) by {
            if b < p {
            } else if b == p {
                assert(s[a] == before[a]);
            } else if a == p {
                assert(s[b] == before[b - 1]);
                if b - 1 > p {
                    assert(!chars_lt(before[b - 1], before[p as int]));
                }
                assert(chars_lt(xv, before[p as int]));
                if chars_lt(before[b - 1], xv) {
                    lemma_chars_lt_transitive(before[b - 1], xv, before[p as int]);
                    if b - 1 == p {
                        lemma_chars_lt_irreflexive(before[p as int]);
                    }
                }
            } else if a < p {
                assert(s[a] == before[a] && s[b] == before[b - 1]);
            } else {
                assert(s[a] == before[a - 1] && s[b] == before[b - 1]);
            }
        }
    }
}

/// `a` sorts strictly after `b`.
fn key_greater(a: &String, b: &Vec<char>) -> (r: bool)
    ensures
        r == chars_lt(b@, a@),
{
    let ac = to_chars(a.as_str());
    chars_less(b, &ac)
}

/// The strings of `v` sorted (`sort`): in order, each string as often as
/// in `v`.
pub fn sort_strings(v: Vec<String>) -> (r: Vec<String>)
    ensures
        sorted(strings_view(r@)),
        forall|k: Seq<char>| #[trigger]
            group(strings_view(r@), itself(), k) == group(strings_view(v@), itself(), k),
{
    let mut out: Vec<String> = Vec::new();
    let mut rest = v;
    let ghost all = strings_view(rest@);
    let n = rest.len();
    let mut i: usize = 0;
    proof {
        assert(strings_view(out@) =~= Seq::<Seq<char>>::empty());
        assert(all.skip(0) =~= all);
        assert(all.take(0) =~= Seq::<Seq<char>>::empty());
    }
    while i < n
        invariant
            n == all.len(),
            i <= n,
            rest@.len() == n - i,
            strings_view(rest@) == all.skip(i as int),
            sorted(strings_view(out@)),
            forall|k: Seq<char>| #[trigger]
                group(strings_view(out@), itself(), k) == group(all.take(i as int), itself(), k),
        decreases n - i,
    {
        let ghost rest_before = rest@;
        let x = rest.remove(0);
        proof {
            assert(strings_view(rest_before)[0] == rest_before[0]@);
            assert(x@ == all[i as int]);
            assert forall|t: int| 0 <= t < rest@.len() implies #[trigger] strings_view(rest@)[t]
                == all.skip(i + 1)[t] by {
                assert(rest@[t] == rest_before[t + 1]);
                assert(strings_view(rest_before)[t + 1] == rest_before[t + 1]@);
            }
            assert(strings_view(rest@) =~= all.skip(i + 1));
            assert(all.take(i + 1) =~= all.take(i as int).push(x@));
            assert forall|k: Seq<char>| #[trigger]
                group(strings_view(out@).push(x@), itself(), k) == group(
                    all.take(i + 1),
                    itself(),
                    k,
                ) by {
                lemma_group_push(strings_view(out@), x@, itself(), k);
                lemma_group_push(all.take(i as int), x@, itself(), k);
            }
        }
        insert_sorted(&mut out, x);
        i = i + 1;
    }
    proof {
        assert(all.take(n as int) =~= all);
    }
    out
}

// ---------------------------------------------------------------------------
// Paths in the order of their components
// ---------------------------------------------------------------------------

/// The text a path is ordered by: `/` ranks below every other character, so
/// that paths compare component by component, as `Path`'s order compares
/// the paths a directory walk yields (no empty or `.` components past the
/// first, no NUL).
pub open spec fn path_key(p: Seq<char>) -> Seq<char> {
    p.map_values(|c: char| if c == '/' { '\0' } else { c })
}

/// `a` sorts strictly before `b` as a path.
pub open spec fn path_lt(a: Seq<char>, b: Seq<char>) -> bool {
    chars_lt(path_key(a), path_key(b))
}

/// Sorted as paths.
pub open spec fn paths_sorted(s: Seq<Seq<char>>) -> bool {
    forall|i: int, j: int| 0 <= i < j < s.len() ==> !path_lt(#[trigger] s[j], #[trigger] s[i])
}

/// The order key of a path.
fn path_key_chars(p: &str) -> (r: Vec<char>)
    ensures
        r@ == path_key(p@),
{
    let c = to_chars(p);
    let mut out: Vec<char> = Vec::new();
    let mut i: usize = 0;
    while i < c.len()
        invariant
            i <= c@.len(),
            out@ == path_key(c@.take(i as int)),
        decreases c@.len() - i,
    {
        let ch = if c[i] == '/' {
            '\0'
        } else {
            c[i]
        };
        out.push(ch);
        proof {
            assert(path_key(c@.take(i + 1)) =~= path_key(c@.take(i as int)).push(ch));
        }
        i = i + 1;
    }
    proof {
        assert(c@.take(c@.len() as int) =~= c@);
    }
    out
}

/// Inserts the path `x` into the sorted list `out`, after the paths that
/// do not sort after it.
fn insert_path(out: &mut Vec<String>, x: String)
    requires
        paths_sorted(strings_view(old(out)@)),
    ensures
        paths_sorted(strings_view(final(out)@)),
        forall|k: Seq<char>| #[trigger]
            group(strings_view(final(out)@), itself(), k) == group(
                strings_view(old(out)@).push(x@),
                itself(),
                k,
            ),
{
    let ghost before = strings_view(out@);
    let xk = path_key_chars(x.as_str());
    let mut p: usize = 0;
    while p < out.len() && !chars_less(&xk, &path_key_chars(out[p].as_str()))
        invariant
            p <= out@.len(),
            before == strings_view(out@),
            xk@ == path_key(x@),
            forall|a: int| 0 <= a < p ==> !path_lt(x@, #[trigger] before[a]),
        decreases out@.len() - p,
    {
        p = p + 1;
    }
    proof {
        assert forall|j: int| p <= j < before.len() implies (itself())(#[trigger] before[j]) != (
        itself())(x@) by {
            assert(path_lt(x@, before[p as int]));
            if j > p {
                assert(!path_lt(before[j], before[p as int]));
                lemma_chars_lt_total(path_key(before[j]), path_key(before[p as int]));
                if chars_lt(path_key(before[p as int]), path_key(before[j])) {
                    lemma_chars_lt_transitive(
                        path_key(x@),
                        path_key(before[p as int]),
                        path_key(before[j]),
                    );
                }
            }
            lemma_chars_lt_irreflexive(path_key(x@));
        }
        lemma_group_insert(before, p as int, x@, itself());
    }
    let ghost xv = x@;
    out.insert(p, x);
    proof {
        let s = strings_view(out@);
        assert(s =~= before.insert(p as int, xv));
        assert forall|a: int, b: int| 0 <= a < b < s.len() implies !path_lt(
            #[trigger] s[b],
            #[trigger] s[a],
        ) by {
            if b < p {
            } else if b == p {
                assert(s[a] == before[a]);
            } else if a == p {
                assert(s[b] == before[b - 1]);
                let kb = path_key(before[b - 1]);
                let kp = path_key(before[p as int]);
                let kx = path_key(xv);
                if b - 1 > p {
                    assert(!path_lt(before[b - 1], before[p as int]));
                }
                assert(chars_lt(kx, kp));
                if chars_lt(kb, kx) {
                    lemma_chars_lt_transitive(kb, kx, kp);
                    if b - 1 == p {
                        lemma_chars_lt_irreflexive(kp);
                    }
                }
            } else if a < p {
                assert(s[a] == before[a] && s[b] == before[b - 1]);
            } else {
                assert(s[a] == before[a - 1] && s[b] == before[b - 1]);
            }
        }
    }
}

/// The paths of `v` sorted as paths: in order, each as often as in `v`.
pub fn sort_paths(v: Vec<String>) -> (r: Vec<String>)
    ensures
        paths_sorted(strings_view(r@)),
        forall|k: Seq<char>| #[trigger]
            group(strings_view(r@), itself(), k) == group(strings_view(v@), itself(), k),
{
    let mut out: Vec<String> = Vec::new();
    let mut rest = v;
    let ghost all = strings_view(rest@);
    let n = rest.len();
    let mut i: usize = 0;
    proof {
        assert(strings_view(out@) =~= Seq::<Seq<char>>::empty());
        assert(all.skip(0) =~= all);
        assert(all.take(0) =~= Seq::<Seq<char>>::empty());
    }
    while i < n
        invariant
            n == all.len(),
            i <= n,
            rest@.len() == n - i,
            strings_view(rest@) == all.skip(i as int),
            paths_sorted(strings_view(out@)),
            forall|k: Seq<char>| #[trigger]
                group(strings_view(out@), itself(), k) == group(all.take(i as int), itself(), k),
        decreases n - i,
    {
        let ghost rest_before = rest@;
        let x = rest.remove(0);
        proof {
            assert(strings_view(rest_before)[0] == rest_before[0]@);
            assert(x@ == all[i as int]);
            assert forall|t: int| 0 <= t < rest@.len() implies #[trigger] strings_view(rest@)[t]
                == all.skip(i + 1)[t] by {
                assert(rest@[t] == rest_before[t + 1]);
                assert(strings_view(rest_before)[t + 1] == rest_before[t + 1]@);
            }
            assert(strings_view(rest@) =~= all.skip(i + 1));
            assert(all.take(i + 1) =~= all.take(i as int).push(x@));
            assert forall|k: Seq<char>| #[trigger]
                group(strings_view(out@).push(x@), itself(), k) == group(
                    all.take(i + 1),
                    itself(),
                    k,
                ) by {
                lemma_group_push(strings_view(out@), x@, itself(), k);
                lemma_group_push(all.take(i as int), x@, itself(), k);
            }
        }
        insert_path(&mut out, x);
        i = i + 1;
    }
    proof {
        assert(all.take(n as int) =~= all);
    }
    out
}

} // verus!
