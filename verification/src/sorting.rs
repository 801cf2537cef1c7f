//! The model of a stable sort: the items with equal keys keep their order.

use vstd::prelude::*;

verus! {

/// The items of `s` whose key is `k`, in order.
pub open spec fn group<T, K>(s: Seq<T>, key: spec_fn(T) -> K, k: K) -> Seq<T>
    decreases s.len(),
{
    if s.len() == 0 {
        Seq::<T>::empty()
    } else if key(s.last()) == k {
        group(s.drop_last(), key, k).push(s.last())
    } else {
        group(s.drop_last(), key, k)
    }
}

/// `group` splits over concatenation.
pub proof fn lemma_group_add<T, K>(a: Seq<T>, b: Seq<T>, key: spec_fn(T) -> K, k: K)
    ensures
        group(a + b, key, k) == group(a, key, k) + group(b, key, k),
    decreases b.len(),
{
    if b.len() == 0 {
        assert(a + b =~= a);
        assert(group(a, key, k) + group(b, key, k) =~= group(a, key, k));
    } else {
        lemma_group_add(a, b.drop_last(), key, k);
        assert((a + b).drop_last() =~= a + b.drop_last());
        assert((a + b).last() == b.last());
        if key(b.last()) == k {
            assert((group(a, key, k) + group(b.drop_last(), key, k)).push(b.last()) =~= group(
                a,
                key,
                k,
            ) + group(b.drop_last(), key, k).push(b.last()));
        }
    }
}

/// No item with key `k`, nothing in its group.
pub proof fn lemma_group_none<T, K>(s: Seq<T>, key: spec_fn(T) -> K, k: K)
    requires
        forall|i: int| 0 <= i < s.len() ==> key(#[trigger] s[i]) != k,
    ensures
        group(s, key, k) == Seq::<T>::empty(),
    decreases s.len(),
{
    if s.len() > 0 {
        assert(key(s[s.len() - 1]) != k);
        lemma_group_none(s.drop_last(), key, k);
    }
}

/// Inserting `x` before items of other keys only does to its group what
/// appending it does.
pub proof fn lemma_group_insert<T, K>(s: Seq<T>, p: int, x: T, key: spec_fn(T) -> K)
    requires
        0 <= p <= s.len(),
        forall|j: int| p <= j < s.len() ==> key(#[trigger] s[j]) != key(x),
    ensures
        forall|k: K| #[trigger] group(s.insert(p, x), key, k) == group(s.push(x), key, k),
{
    assert forall|k: K| #[trigger] group(s.insert(p, x), key, k) == group(s.push(x), key, k) by {
        let a = s.take(p);
        let b = s.skip(p);
        assert(s.insert(p, x) =~= a + (seq![x] + b));
        assert(s.push(x) =~= (a + b) + seq![x]);
        assert(s =~= a + b);
        lemma_group_add(a, seq![x] + b, key, k);
        lemma_group_add(seq![x], b, key, k);
        lemma_group_add(a + b, seq![x], key, k);
        lemma_group_add(a, b, key, k);
        assert(seq![x].drop_last() =~= Seq::<T>::empty());
        assert(seq![x].last() == x);
        assert(group(seq![x].drop_last(), key, k) =~= Seq::<T>::empty());
        if key(x) == k {
            assert forall|i: int| 0 <= i < b.len() implies key(#[trigger] b[i]) != k by {
                assert(b[i] == s[p + i]);
            }
            lemma_group_none(b, key, k);
            assert(group(seq![x], key, k) =~= seq![x]);
        } else {
            assert(group(seq![x], key, k) =~= Seq::<T>::empty());
        }
        assert(group(a, key, k) + (group(seq![x], key, k) + group(b, key, k)) =~= (group(a, key, k)
            + group(b, key, k)) + group(seq![x], key, k)) by {
            if key(x) == k {
                assert(group(b, key, k) =~= Seq::<T>::empty());
            }
        }
    }
}

/// Appending one item.
pub proof fn lemma_group_push<T, K>(s: Seq<T>, x: T, key: spec_fn(T) -> K, k: K)
    ensures
        group(s.push(x), key, k) == if key(x) == k {
            group(s, key, k).push(x)
        } else {
            group(s, key, k)
        },
{
    assert(s.push(x).drop_last() =~= s);
}

} // verus!
