//! Multipart uploads: how a file is cut into parts, the order in which the
//! parts are reported, and the guard that aborts an unfinished upload.

use vstd::prelude::*;

use crate::sorting::{group, lemma_group_insert, lemma_group_push};

verus! {

/// Files up to this size go up in one request; it is also the part size
/// asked for.
pub const PART_SIZE: u64 = 8388608;

/// The smallest part the store accepts, but for the last.
pub const MIN_NON_LAST_PART_SIZE: u64 = 5242880;

/// The most parts one upload may have.
pub const MAX_PARTS: u64 = 10000;

/// Parts sent at once.
pub const MAX_PART_CONCURRENCY: usize = 4;

/// One mebibyte.
pub const MIB: u64 = 1048576;

/// `a.div_ceil(b)`.
pub open spec fn ceil_div(a: nat, b: nat) -> nat {
    if a % b == 0 {
        a / b
    } else {
        a / b + 1
    }
}

/// The size of every part but the last: the size asked for, raised so that
/// no more than [`MAX_PARTS`] parts are needed, rounded up to whole
/// mebibytes, and at least [`MIN_NON_LAST_PART_SIZE`].
pub open spec fn spec_effective_part_size(total: nat, configured: nat) -> nat {
    let min_for_count = ceil_div(total, MAX_PARTS as nat);
    let size = if configured >= min_for_count {
        configured
    } else {
        min_for_count
    };
    let size = ceil_div(size, MIB as nat) * (MIB as nat);
    if size >= MIN_NON_LAST_PART_SIZE {
        size
    } else {
        MIN_NON_LAST_PART_SIZE as nat
    }
}

/// The sum of the lengths of `parts`.
pub open spec fn sum_lens(parts: Seq<(u32, u64, u64)>) -> nat
    decreases parts.len(),
{
    if parts.len() == 0 {
        0
    } else {
        sum_lens(parts.drop_last()) + (parts.last().2 as nat)
    }
}

proof fn lemma_ceil_div(a: nat, b: nat)
    requires
        b > 0,
    ensures
        ceil_div(a, b) * b >= a,
        ceil_div(a, b) * b < a + b,
        a <= u64::MAX ==> ceil_div(a, b) <= u64::MAX,
{
    assert(a == (a / b) * b + a % b) by (nonlinear_arith)
        requires
            b > 0,
    ;
    assert(0 <= a % b < b) by (nonlinear_arith)
        requires
            b > 0,
    ;
    assert((a / b + 1) * b == (a / b) * b + b) by (nonlinear_arith);
    assert(a / b <= a) by (nonlinear_arith)
        requires
            b > 0,
    ;
    if a % b != 0 {
        assert(a / b < a) by (nonlinear_arith)
            requires
                b > 0,
                a % b != 0,
                a == (a / b) * b + a % b,
        ;
    }
}

/// The part size of [`spec_effective_part_size`], computed without overflow.
pub fn effective_part_size(total_bytes: u64, configured_part_size: u64) -> (r: u64)
    requires
        configured_part_size <= u64::MAX - MIB + 1,
    ensures
        r == spec_effective_part_size(total_bytes as nat, configured_part_size as nat),
        r >= MIN_NON_LAST_PART_SIZE,
        r as nat * (MAX_PARTS as nat) >= total_bytes,
{
    proof {
        lemma_ceil_div(total_bytes as nat, MAX_PARTS as nat);
    }
    let min_for_count = if total_bytes % MAX_PARTS == 0 {
        total_bytes / MAX_PARTS
    } else {
        total_bytes / MAX_PARTS + 1
    };
    let size = if configured_part_size >= min_for_count {
        configured_part_size
    } else {
        min_for_count
    };
    proof {
        lemma_ceil_div(size as nat, MIB as nat);
        assert(min_for_count <= u64::MAX / 10000 + 1);
    }
    let units = if size % MIB == 0 {
        size / MIB
    } else {
        size / MIB + 1
    };
    assert(units * MIB < size + MIB);
    let size2 = units * MIB;
    proof {
        assert(size2 >= min_for_count);
        assert(min_for_count as nat * (MAX_PARTS as nat) >= total_bytes);
        assert(size2 as nat * (MAX_PARTS as nat) >= min_for_count as nat * (MAX_PARTS as nat))
            by (nonlinear_arith)
            requires
                size2 >= min_for_count,
        ;
    }
    if size2 >= MIN_NON_LAST_PART_SIZE {
        size2
    } else {
        proof {
            assert(MIN_NON_LAST_PART_SIZE as nat * (MAX_PARTS as nat) >= size2 as nat * (
            MAX_PARTS as nat)) by (nonlinear_arith)
                requires
                    size2 < MIN_NON_LAST_PART_SIZE,
            ;
        }
        MIN_NON_LAST_PART_SIZE
    }
}

/// The parts of a file of `total_bytes` bytes: `(number, offset, length)`,
/// numbered from 1, each but the last [`spec_effective_part_size`] long,
/// the last one what remains.
pub fn part_plan(total_bytes: u64, configured_part_size: u64) -> (r: Vec<(u32, u64, u64)>)
    requires
        configured_part_size <= u64::MAX - MIB + 1,
    ensures
        ({
            let size = spec_effective_part_size(total_bytes as nat, configured_part_size as nat);
            &&& forall|k: int|
                0 <= k < r@.len() ==> {
                    &&& (#[trigger] r@[k]).0 == k + 1
                    &&& r@[k].1 == k * size
                    &&& r@[k].2 == if total_bytes - k * size < size {
                        (total_bytes - k * size) as nat
                    } else {
                        size
                    }
                }
            &&& total_bytes == 0 ==> r@.len() == 0
            &&& total_bytes > 0 ==> (r@.len() - 1) * size < total_bytes <= r@.len() * size
        }),
        r@.len() <= MAX_PARTS,
        sum_lens(r@) == total_bytes,
        forall|k: int| 0 <= k < r@.len() ==> (#[trigger] r@[k]).2 > 0,
        forall|k: int| 0 <= k < r@.len() - 1 ==> (#[trigger] r@[k]).2 >= MIN_NON_LAST_PART_SIZE,
        forall|k: int| 0 <= k < r@.len() - 1 ==> r@[k].1 + r@[k].2 == (#[trigger] r@[k + 1]).1,
        r@.len() > 0 ==> r@[0].1 == 0 && r@.last().1 + r@.last().2 == total_bytes,
{
    let part_size = effective_part_size(total_bytes, configured_part_size);
    let ghost size = part_size as nat;
    let mut parts: Vec<(u32, u64, u64)> = Vec::new();
    let mut offset: u64 = 0;
    let mut part_number: u32 = 1;
    while offset < total_bytes
        invariant
            size == part_size,
            size == spec_effective_part_size(total_bytes as nat, configured_part_size as nat),
            part_size >= MIN_NON_LAST_PART_SIZE,
            part_size as nat * (MAX_PARTS as nat) >= total_bytes,
            offset <= total_bytes,
            part_number as int == parts@.len() + 1,
            sum_lens(parts@) == offset,
            parts@.len() <= MAX_PARTS,
            offset < total_bytes ==> parts@.len() < MAX_PARTS,
            offset < total_bytes ==> offset as int == parts@.len() * size,
            parts@.len() == 0 ==> offset == 0,
            parts@.len() > 0 ==> (parts@.len() - 1) * size < offset <= parts@.len() * size,
            parts@.len() > 0 ==> parts@.last().1 + parts@.last().2 == offset,
            forall|k: int|
                0 <= k < parts@.len() ==> {
                    &&& (#[trigger] parts@[k]).0 == k + 1
                    &&& parts@[k].1 == k * size
                    &&& parts@[k].2 == if total_bytes - k * size < size {
                        (total_bytes - k * size) as nat
                    } else {
                        size
                    }
                    &&& parts@[k].2 > 0
                },
            forall|k: int| 0 <= k < parts@.len() - 1 ==> (#[trigger] parts@[k]).2 == size,
            offset < total_bytes ==> forall|k: int|
                0 <= k < parts@.len() ==> (#[trigger] parts@[k]).2 == size,
        decreases total_bytes - offset,
    {
        let remaining = total_bytes - offset;
        let len = if remaining < part_size {
            remaining
        } else {
            part_size
        };
        let ghost n = parts@.len();
        let ghost old_parts = parts@;
        parts.push((part_number, offset, len));
        proof {
            assert(parts@.drop_last() =~= old_parts);
            assert((n + 1) * size == n * size + size) by (nonlinear_arith);
            assert forall|k: int| 0 <= k < parts@.len() - 1 implies (#[trigger] parts@[k]).2
                == size by {
                assert(parts@[k] == old_parts[k]);
            }
        }
        offset = offset + len;
        if offset < total_bytes {
            proof {
                assert(len == part_size);
                assert(offset as int == (n + 1) * size);
                assert(n + 1 < MAX_PARTS) by (nonlinear_arith)
                    requires
                        (n + 1) * size < total_bytes,
                        size * (MAX_PARTS as nat) >= total_bytes,
                        size > 0,
                ;
            }
        }
        part_number = part_number + 1;
    }
    proof {
        let n = parts@.len() as int;
        assert forall|k: int| 0 <= k < n - 1 implies parts@[k].1 + parts@[k].2 == (
        #[trigger] parts@[k + 1]).1 by {
            assert((k + 1) * size == k * size + size) by (nonlinear_arith);
        }
        if n > 0 {
            assert(parts@[0].1 == 0 * size);
            assert(0 * size == 0) by (nonlinear_arith);
        }
    }
    parts
}

/// A finished part of a multipart upload, as the store reported it.
#[derive(Debug, Clone, PartialEq, Eq)]
pub struct CompletedPartInfo {
    pub part_number: Option<i32>,
    pub e_tag: Option<String>,
}

/// The number a part is ordered by: its part number, or 0 where it has none.
pub open spec fn part_key(p: CompletedPartInfo) -> int {
    match p.part_number {
        Some(n) => n as int,
        None => 0,
    }
}

/// [`part_key`] as a function value.
pub open spec fn part_key_fn() -> spec_fn(CompletedPartInfo) -> int {
    |p: CompletedPartInfo| part_key(p)
}

fn part_key_exec(p: &CompletedPartInfo) -> (r: i32)
    ensures
        r as int == part_key(*p),
{
    match p.part_number {
        Some(n) => n,
        None => 0,
    }
}

/// Sorts the parts by part number (a part without one counts as 0), keeping
/// the order of parts with equal numbers.
pub fn sort_completed_parts(parts: &mut Vec<CompletedPartInfo>)
    ensures
        forall|i: int, j: int|
            0 <= i < j < final(parts)@.len() ==> part_key(#[trigger] final(parts)@[i]) <= part_key(
                #[trigger] final(parts)@[j],
            ),
        forall|k: int| #[trigger]
            group(final(parts)@, part_key_fn(), k) == group(
                old(parts)@,
                part_key_fn(),
                k,
            ),
        final(parts)@.len() == old(parts)@.len(),
{
    let ghost key = part_key_fn();
    let mut input: Vec<CompletedPartInfo> = Vec::new();
    std::mem::swap(&mut input, parts);
    let ghost orig = input@;
    let mut out: Vec<CompletedPartInfo> = Vec::new();
    let mut i: usize = 0;
    proof {
        assert(orig.take(0) =~= Seq::<CompletedPartInfo>::empty());
        assert(orig.skip(0) =~= orig);
    }
    let n = input.len();
    while i < n
        invariant
            key == part_key_fn(),
            n == orig.len(),
            input@ == orig.skip(i as int),
            i <= n,
            out@.len() == i,
            forall|a: int, b: int|
                0 <= a < b < out@.len() ==> part_key(#[trigger] out@[a]) <= part_key(
                    #[trigger] out@[b],
                ),
            forall|k: int| #[trigger] group(out@, key, k) == group(orig.take(i as int), key, k),
        decreases n - i,
    {
        let x = input.remove(0);
        proof {
            assert(x == orig[i as int]);
            assert(input@ =~= orig.skip(i + 1));
        }
        let kx = part_key_exec(&x);
        let mut p: usize = 0;
        while p < out.len() && part_key_exec(&out[p]) <= kx
            invariant
                p <= out@.len(),
                kx as int == part_key(x),
                forall|a: int| 0 <= a < p ==> part_key(#[trigger] out@[a]) <= kx,
            decreases out@.len() - p,
        {
            p = p + 1;
        }
        let ghost before = out@;
        proof {
            assert forall|j: int| p <= j < before.len() implies key(#[trigger] before[j]) != key(x)
                by {
                assert(key(before[j]) == part_key(before[j]));
                assert(key(x) == part_key(x));
                assert(part_key(before[p as int]) > kx);
                if j > p {
                    assert(part_key(before[p as int]) <= part_key(before[j]));
                }
            }
            lemma_group_insert(before, p as int, x, key);
            assert(orig.take(i + 1) =~= orig.take(i as int).push(x));
            assert forall|k: int| #[trigger] group(before.push(x), key, k) == group(
                orig.take(i + 1),
                key,
                k,
            ) by {
                lemma_group_push(before, x, key, k);
                lemma_group_push(orig.take(i as int), x, key, k);
            }
        }
        out.insert(p, x);
        proof {
            assert forall|a: int, b: int|
                0 <= a < b < out@.len() implies part_key(#[trigger] out@[a]) <= part_key(
                #[trigger] out@[b],
            ) by {
                if b < p {
                    assert(out@[a] == before[a] && out@[b] == before[b]);
                } else if b == p {
                    assert(out@[a] == before[a]);
                } else if a == p {
                    assert(out@[b] == before[b - 1]);
                    if b - 1 > p {
                        assert(part_key(before[p as int]) <= part_key(before[b - 1]));
                    }
                } else if a < p {
                    assert(out@[a] == before[a] && out@[b] == before[b - 1]);
                } else {
                    assert(out@[a] == before[a - 1] && out@[b] == before[b - 1]);
                }
            }
        }
        i = i + 1;
    }
    proof {
        assert(orig.take(i as int) =~= orig);
    }
    *parts = out;
}

/// Whether an unfinished upload may still be aborted, and the parts of it
/// that name the upload.
#[derive(Debug)]
pub struct MultipartUploadGuard {
    bucket: String,
    key: String,
    upload_id: String,
    completed: bool,
    abort_attempted: bool,
}

impl MultipartUploadGuard {
    /// The bucket, key and upload id of the upload.
    pub closed spec fn names(self) -> (Seq<char>, Seq<char>, Seq<char>) {
        (self.bucket@, self.key@, self.upload_id@)
    }

    /// The bucket of the upload.
    pub fn bucket(&self) -> (r: &str)
        ensures
            r@ == self.names().0,
    {
        self.bucket.as_str()
    }

    /// The key of the upload.
    pub fn key(&self) -> (r: &str)
        ensures
            r@ == self.names().1,
    {
        self.key.as_str()
    }

    /// The id of the upload.
    pub fn upload_id(&self) -> (r: &str)
        ensures
            r@ == self.names().2,
    {
        self.upload_id.as_str()
    }

    /// The upload has completed.
    pub closed spec fn is_completed(self) -> bool {
        self.completed
    }

    /// An abort request has been sent.
    pub closed spec fn abort_was_attempted(self) -> bool {
        self.abort_attempted
    }

    /// An abort request is still due if the upload ends now.
    pub open spec fn may_abort(self) -> bool {
        !self.is_completed() && !self.abort_was_attempted()
    }

    /// A guard for a freshly created upload.
    pub fn new(bucket: String, key: String, upload_id: String) -> (g: MultipartUploadGuard)
        ensures
            g.names() == (bucket@, key@, upload_id@),
            !g.is_completed(),
            !g.abort_was_attempted(),
    {
        MultipartUploadGuard { bucket, key, upload_id, completed: false, abort_attempted: false }
    }

    /// Whether to send the abort request now; after this no other one is due.
    pub fn abort(&mut self) -> (send: bool)
        ensures
            send == old(self).may_abort(),
            final(self).is_completed() == old(self).is_completed(),
            final(self).abort_was_attempted() == (old(self).abort_was_attempted() || send),
            !final(self).may_abort(),
            final(self).names() == old(self).names(),
    {
        if self.completed || self.abort_attempted {
            return false;
        }
        self.abort_attempted = true;
        true
    }

    /// The upload completed: it is never to be aborted.
    pub fn mark_completed(&mut self)
        ensures
            final(self).is_completed(),
            final(self).abort_was_attempted() == old(self).abort_was_attempted(),
            !final(self).may_abort(),
            final(self).names() == old(self).names(),
    {
        self.completed = true;
    }

    /// Whether dropping the guard must send the abort request.
    pub fn needs_abort_on_drop(&self) -> (r: bool)
        ensures
            r == self.may_abort(),
    {
        !self.completed && !self.abort_attempted
    }
}

} // verus!
