//! Recursive deletes: which keys go, and in which batches.

use vstd::prelude::*;

use crate::key_set::{same_members, sorted_unique, strictly_sorted};
use crate::s3::keys::{normalize_dir_key, spec_normalize_dir_key};
use crate::text::strings_view;

verus! {

/// The most keys one delete request names.
pub const DELETE_BATCH: usize = 1000;

/// The keys a recursive delete of `key` removes: those listed under it and
/// its directory marker (unless `key` is the bucket root), sorted, each once.
pub fn keys_for_delete(listed: Vec<String>, key: &str) -> (r: Vec<String>)
    ensures
        strictly_sorted(strings_view(r@)),
        forall|y: Seq<char>|
            strings_view(r@).contains(y) <==> (strings_view(listed@).contains(y) || (y
                == spec_normalize_dir_key(key@) && y.len() > 0)),
{
    let dir_key = normalize_dir_key(key);
    let mut keys = listed;
    let ghost before = strings_view(keys@);
    let ghost dk = dir_key@;
    let add = !dir_key.as_str().is_empty();
    if add {
        keys.push(dir_key);
        proof {
            assert(strings_view(keys@) =~= before.push(dk));
        }
    }
    let r = sorted_unique(keys);
    proof {
        assert forall|y: Seq<char>| strings_view(r@).contains(y) <==> (before.contains(y) || (y
            == dk && y.len() > 0)) by {
            assert(same_members(strings_view(r@), strings_view(keys@)));
            if add {
                let s = before.push(dk);
                if s.contains(y) && !before.contains(y) {
                    let k = choose|k: int| 0 <= k < s.len() && s[k] == y;
                    if k < before.len() {
                        assert(before[k] == y);
                    }
                }
                if before.contains(y) {
                    let k = choose|k: int| 0 <= k < before.len() && before[k] == y;
                    assert(s[k] == y);
                }
                if y == dk {
                    assert(s[before.len() as int] == y);
                }
            }
        }
    }
    r
}

/// The keys cut into batches of `size`, in order: every batch full but the
/// last.
pub open spec fn batches_of(keys: Seq<Seq<char>>, size: nat) -> Seq<Seq<Seq<char>>>
    decreases keys.len(),
{
    if keys.len() == 0 || size == 0 {
        Seq::<Seq<Seq<char>>>::empty()
    } else if keys.len() <= size {
        seq![keys]
    } else {
        seq![keys.take(size as int)] + batches_of(keys.skip(size as int), size)
    }
}

/// The batches one after the other.
pub open spec fn concat_batches(b: Seq<Seq<Seq<char>>>) -> Seq<Seq<char>>
    decreases b.len(),
{
    if b.len() == 0 {
        Seq::<Seq<char>>::empty()
    } else {
        b[0] + concat_batches(b.skip(1))
    }
}

/// Deleting batch by batch deletes exactly the keys, in order, none twice:
/// the batches put together are the keys, and each holds between one and
/// `size` of them.
pub proof fn law_batches_cover_keys(keys: Seq<Seq<char>>, size: nat)
    requires
        size > 0,
    ensures
        concat_batches(batches_of(keys, size)) == keys,
        forall|i: int|
            0 <= i < batches_of(keys, size).len() ==> 0 < (#[trigger] batches_of(keys, size)[i]).len()
                <= size,
    decreases keys.len(),
{
    let b = batches_of(keys, size);
    if keys.len() == 0 {
    } else if keys.len() <= size {
        assert(b == seq![keys]);
        assert(b.skip(1) =~= Seq::<Seq<Seq<char>>>::empty());
        assert(concat_batches(b.skip(1)) == Seq::<Seq<char>>::empty());
        assert(keys + Seq::<Seq<char>>::empty() =~= keys);
    } else {
        let rest = keys.skip(size as int);
        law_batches_cover_keys(rest, size);
        assert(b == seq![keys.take(size as int)] + batches_of(rest, size));
        assert(b[0] == keys.take(size as int));
        assert(b.skip(1) =~= batches_of(rest, size));
        assert(keys.take(size as int) + rest =~= keys);
        assert forall|i: int| 0 <= i < b.len() implies 0 < (#[trigger] b[i]).len() <= size by {
            if i > 0 {
                assert(b[i] == batches_of(rest, size)[i - 1]);
            }
        }
    }
}

/// The models of batches of strings.
pub open spec fn batches_view(v: Seq<Vec<String>>) -> Seq<Seq<Seq<char>>> {
    Seq::new(v.len(), |i: int| strings_view(v[i]@))
}

/// Cuts `keys` into the batches that one delete request each removes.
pub fn delete_batches(keys: &Vec<String>) -> (r: Vec<Vec<String>>)
    ensures
        batches_view(r@) == batches_of(strings_view(keys@), DELETE_BATCH as nat),
{
    let ghost all = strings_view(keys@);
    let mut out: Vec<Vec<String>> = Vec::new();
    let mut start: usize = 0;
    let n = keys.len();
    proof {
        assert(all.skip(0) =~= all);
    }
    while start < n
        invariant
            n == all.len(),
            all == strings_view(keys@),
            start <= n,
            start < n ==> start % DELETE_BATCH == 0,
            batches_view(out@) + batches_of(all.skip(start as int), DELETE_BATCH as nat)
                == batches_of(all, DELETE_BATCH as nat),
        decreases n - start,
    {
        let end = if n - start <= DELETE_BATCH {
            n
        } else {
            start + DELETE_BATCH
        };
        let mut batch: Vec<String> = Vec::new();
        let mut i = start;
        while i < end
            invariant
                start <= i <= end <= n,
                n == keys@.len(),
                strings_view(batch@) == strings_view(keys@).subrange(start as int, i as int),
            decreases end - i,
        {
            let ghost b = strings_view(batch@);
            let k = keys[i].clone();
            proof {
                assert(k@ == strings_view(keys@)[i as int]);
            }
            batch.push(k);
            proof {
                assert(strings_view(batch@) =~= b.push(k@));
                assert(strings_view(batch@) =~= strings_view(keys@).subrange(
                    start as int,
                    i + 1,
                ));
            }
            i = i + 1;
        }
        proof {
            let rest = all.skip(start as int);
            if n - start <= DELETE_BATCH {
                assert(strings_view(batch@) =~= rest);
                assert(all.skip(end as int) =~= Seq::<Seq<char>>::empty());
                assert(batches_of(rest, DELETE_BATCH as nat) == seq![rest]);
            } else {
                assert(strings_view(batch@) =~= rest.take(DELETE_BATCH as int));
                assert(rest.skip(DELETE_BATCH as int) =~= all.skip(end as int));
            }
            let bv = batches_view(out@.push(batch));
            assert(bv =~= batches_view(out@).push(strings_view(batch@)));
            assert(bv + batches_of(all.skip(end as int), DELETE_BATCH as nat) =~= batches_view(
                out@,
            ) + batches_of(rest, DELETE_BATCH as nat));
        }
        out.push(batch);
        start = end;
    }
    proof {
        assert(all.skip(start as int) =~= Seq::<Seq<char>>::empty());
        assert(batches_view(out@) + Seq::<Seq<Seq<char>>>::empty() =~= batches_view(out@));
    }
    out
}

} // verus!
