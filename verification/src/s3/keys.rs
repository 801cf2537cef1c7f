//! Object keys and listing prefixes.

use vstd::prelude::*;

use crate::text::{
    lemma_trim_ch_shape, lemma_trim_end_ch_noop, lemma_trim_start_ch_noop,
    lemma_trim_start_ch_shape, ends_with_ch, ends_with_char, from_chars, leading_count, sub_chars, to_chars, trim_ch,
    trim_char, trim_start_ch,
};

verus! {

/// A listing prefix: no `/` at either end, then one `/`; empty for the root.
pub open spec fn spec_normalize_prefix(prefix: Seq<char>) -> Seq<char> {
    let t = trim_ch(prefix, '/');
    if t.len() == 0 {
        t
    } else {
        t.push('/')
    }
}

/// An object key: no leading `/`.
pub open spec fn spec_normalize_key(key: Seq<char>) -> Seq<char> {
    trim_start_ch(key, '/')
}

/// A directory key: no leading `/`, and a trailing `/` unless it is empty.
pub open spec fn spec_normalize_dir_key(key: Seq<char>) -> Seq<char> {
    let n = spec_normalize_key(key);
    if n.len() == 0 || ends_with_ch(n, '/') {
        n
    } else {
        n.push('/')
    }
}

/// The prefix that lists what is directly under `prefix`.
pub fn normalize_prefix(prefix: &str) -> (r: String)
    ensures
        r@ == spec_normalize_prefix(prefix@),
{
    let v = to_chars(prefix);
    let mut t = trim_char(&v, '/');
    if t.len() > 0 {
        t.push('/');
    }
    from_chars(&t)
}

/// `key` without leading `/`s.
pub fn normalize_key(key: &str) -> (r: String)
    ensures
        r@ == spec_normalize_key(key@),
{
    let v = to_chars(key);
    let n = leading_count(&v, '/');
    let t = sub_chars(&v, n, v.len());
    from_chars(&t)
}

/// `key` as a directory key: without leading `/`s, with a trailing `/`.
pub fn normalize_dir_key(key: &str) -> (r: String)
    ensures
        r@ == spec_normalize_dir_key(key@),
{
    let v = to_chars(key);
    let n = leading_count(&v, '/');
    let mut t = sub_chars(&v, n, v.len());
    if t.len() > 0 && !ends_with_char(&t, '/') {
        t.push('/');
    }
    from_chars(&t)
}

/// Normalizing a listing prefix twice gives what normalizing it once gives.
pub proof fn law_normalize_prefix_idempotent(prefix: Seq<char>)
    ensures
        spec_normalize_prefix(spec_normalize_prefix(prefix)) == spec_normalize_prefix(prefix),
{
    let t = trim_ch(prefix, '/');
    lemma_trim_ch_shape(prefix, '/');
    if t.len() > 0 {
        let n = t.push('/');
        lemma_trim_start_ch_noop(n, '/');
        assert(n.drop_last() =~= t);
        lemma_trim_end_ch_noop(t, '/');
        assert(trim_ch(n, '/') == t);
    } else {
        lemma_trim_start_ch_noop(t, '/');
        lemma_trim_end_ch_noop(t, '/');
    }
}

/// Normalizing a key twice gives what normalizing it once gives.
pub proof fn law_normalize_key_idempotent(key: Seq<char>)
    ensures
        spec_normalize_key(spec_normalize_key(key)) == spec_normalize_key(key),
{
    lemma_trim_start_ch_shape(key, '/');
    lemma_trim_start_ch_noop(spec_normalize_key(key), '/');
}

/// Normalizing a directory key twice gives what normalizing it once gives.
pub proof fn law_normalize_dir_key_idempotent(key: Seq<char>)
    ensures
        spec_normalize_dir_key(spec_normalize_dir_key(key)) == spec_normalize_dir_key(key),
{
    let n = spec_normalize_key(key);
    lemma_trim_start_ch_shape(key, '/');
    let d = spec_normalize_dir_key(key);
    if n.len() == 0 || ends_with_ch(n, '/') {
        lemma_trim_start_ch_noop(n, '/');
    } else {
        assert(d[0] == n[0]);
        lemma_trim_start_ch_noop(d, '/');
    }
}

} // verus!
