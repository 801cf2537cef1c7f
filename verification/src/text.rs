//! Character-level string helpers and their mathematical models.
//!
//! Strings are modelled by their views, `Seq<char>`. The executable helpers
//! work on `Vec<char>` and state their results over these models.

use vstd::prelude::*;

verus! {

// ---------------------------------------------------------------------------
// Models
// ---------------------------------------------------------------------------

/// Unicode `White_Space`, the set that `str::trim` removes.
pub open spec fn is_ws(c: char) -> bool {
    let n = c as u32;
    ||| 0x09 <= n <= 0x0d
    ||| n == 0x20
    ||| n == 0x85
    ||| n == 0xa0
    ||| n == 0x1680
    ||| 0x2000 <= n <= 0x200a
    ||| n == 0x2028
    ||| n == 0x2029
    ||| n == 0x202f
    ||| n == 0x205f
    ||| n == 0x3000
}

/// `s` without its leading whitespace.
pub open spec fn trim_start_ws(s: Seq<char>) -> Seq<char>
    decreases s.len(),
{
    if s.len() > 0 && is_ws(s[0]) {
        trim_start_ws(s.drop_first())
    } else {
        s
    }
}

/// `s` without its trailing whitespace.
pub open spec fn trim_end_ws(s: Seq<char>) -> Seq<char>
    decreases s.len(),
{
    if s.len() > 0 && is_ws(s.last()) {
        trim_end_ws(s.drop_last())
    } else {
        s
    }
}

/// `str::trim`.
pub open spec fn trim_ws(s: Seq<char>) -> Seq<char> {
    trim_end_ws(trim_start_ws(s))
}

/// `str::trim_start_matches(c)`.
pub open spec fn trim_start_ch(s: Seq<char>, c: char) -> Seq<char>
    decreases s.len(),
{
    if s.len() > 0 && s[0] == c {
        trim_start_ch(s.drop_first(), c)
    } else {
        s
    }
}

/// `str::trim_end_matches(c)`.
pub open spec fn trim_end_ch(s: Seq<char>, c: char) -> Seq<char>
    decreases s.len(),
{
    if s.len() > 0 && s.last() == c {
        trim_end_ch(s.drop_last(), c)
    } else {
        s
    }
}

/// `str::trim_matches(c)`.
pub open spec fn trim_ch(s: Seq<char>, c: char) -> Seq<char> {
    trim_end_ch(trim_start_ch(s, c), c)
}

/// `s` starts with `p`.
pub open spec fn has_prefix(s: Seq<char>, p: Seq<char>) -> bool {
    p.len() <= s.len() && s.take(p.len() as int) == p
}

/// `s` ends with `p`.
pub open spec fn has_suffix(s: Seq<char>, p: Seq<char>) -> bool {
    p.len() <= s.len() && s.skip(s.len() - p.len()) == p
}

/// `s` starts with the character `c`.
pub open spec fn starts_with_ch(s: Seq<char>, c: char) -> bool {
    s.len() > 0 && s[0] == c
}

/// `s` ends with the character `c`.
pub open spec fn ends_with_ch(s: Seq<char>, c: char) -> bool {
    s.len() > 0 && s.last() == c
}

/// Index of the first `c` in `s`.
pub open spec fn find_first(s: Seq<char>, c: char) -> Option<int>
    decreases s.len(),
{
    if s.len() == 0 {
        None
    } else if s[0] == c {
        Some(0)
    } else {
        match find_first(s.drop_first(), c) {
            Some(i) => Some(i + 1),
            None => None,
        }
    }
}

/// Index of the last `c` in `s`.
pub open spec fn find_last(s: Seq<char>, c: char) -> Option<int>
    decreases s.len(),
{
    if s.len() == 0 {
        None
    } else if s.last() == c {
        Some(s.len() - 1)
    } else {
        find_last(s.drop_last(), c)
    }
}

/// The characters of `s` with ASCII upper-case letters lowered
/// (`str::to_ascii_lowercase`).
pub open spec fn ascii_lower_ch(c: char) -> char {
    if 'A' <= c && c <= 'Z' {
        ((c as u32) + 32) as char
    } else {
        c
    }
}

/// `str::to_ascii_lowercase`.
pub open spec fn ascii_lower(s: Seq<char>) -> Seq<char> {
    s.map_values(|c: char| ascii_lower_ch(c))
}

/// The decimal digit `d` as a character.
pub open spec fn digit_char(d: nat) -> char {
    if d == 0 {
        '0'
    } else if d == 1 {
        '1'
    } else if d == 2 {
        '2'
    } else if d == 3 {
        '3'
    } else if d == 4 {
        '4'
    } else if d == 5 {
        '5'
    } else if d == 6 {
        '6'
    } else if d == 7 {
        '7'
    } else if d == 8 {
        '8'
    } else {
        '9'
    }
}

/// The decimal representation of `n`, as `Display` writes an integer.
pub open spec fn decimal(n: nat) -> Seq<char>
    decreases n,
{
    if n < 10 {
        seq![digit_char(n)]
    } else {
        decimal(n / 10).push(digit_char(n % 10))
    }
}

/// `s` padded on the left with spaces to at least `width` characters
/// (`format!("{s:>width$}")`).
pub open spec fn pad_left(s: Seq<char>, width: nat) -> Seq<char> {
    if s.len() >= width {
        s
    } else {
        Seq::new((width - s.len()) as nat, |i: int| ' ') + s
    }
}

/// `s` padded on the right with spaces to at least `width` characters
/// (`format!("{s:<width$}")`).
pub open spec fn pad_right(s: Seq<char>, width: nat) -> Seq<char> {
    if s.len() >= width {
        s
    } else {
        s + Seq::new((width - s.len()) as nat, |i: int| ' ')
    }
}

/// The models of strings.
pub open spec fn strings_view(v: Seq<String>) -> Seq<Seq<char>> {
    Seq::new(v.len(), |i: int| v[i]@)
}

/// The models of pairs of strings.
pub open spec fn pairs_view(v: Seq<(String, String)>) -> Seq<(Seq<char>, Seq<char>)> {
    Seq::new(v.len(), |i: int| (v[i].0@, v[i].1@))
}

/// Strict lexicographic order on character sequences, by code point. This is
/// the order of `String`'s `Ord`: UTF-8 preserves code point order.
pub open spec fn chars_lt(a: Seq<char>, b: Seq<char>) -> bool
    decreases a.len(),
{
    if a.len() == 0 {
        b.len() > 0
    } else if b.len() == 0 {
        false
    } else if a[0] != b[0] {
        (a[0] as u32) < (b[0] as u32)
    } else {
        chars_lt(a.drop_first(), b.drop_first())
    }
}

// ---------------------------------------------------------------------------
// Facts about the models
// ---------------------------------------------------------------------------

/// `chars_lt` is irreflexive.
pub proof fn lemma_chars_lt_irreflexive(a: Seq<char>)
    ensures
        !chars_lt(a, a),
    decreases a.len(),
{
    if a.len() > 0 {
        lemma_chars_lt_irreflexive(a.drop_first());
    }
}

/// `chars_lt` is transitive.
pub proof fn lemma_chars_lt_transitive(a: Seq<char>, b: Seq<char>, c: Seq<char>)
    requires
        chars_lt(a, b),
        chars_lt(b, c),
    ensures
        chars_lt(a, c),
    decreases a.len(),
{
    if a.len() > 0 && b.len() > 0 && c.len() > 0 && a[0] == b[0] && b[0] == c[0] {
        lemma_chars_lt_transitive(a.drop_first(), b.drop_first(), c.drop_first());
    }
}

/// Two different sequences are ordered one way or the other.
pub proof fn lemma_chars_lt_total(a: Seq<char>, b: Seq<char>)
    ensures
        a == b || chars_lt(a, b) || chars_lt(b, a),
    decreases a.len(),
{
    if a.len() > 0 && b.len() > 0 && a[0] == b[0] {
        lemma_chars_lt_total(a.drop_first(), b.drop_first());
        if a.drop_first() == b.drop_first() {
            assert(a =~= seq![a[0]] + a.drop_first());
            assert(b =~= seq![b[0]] + b.drop_first());
        }
    } else if a.len() > 0 && b.len() > 0 {
        vstd::utf8::char_u32_cast(a[0], a[0] as u32);
        vstd::utf8::char_u32_cast(b[0], b[0] as u32);
    } else if a.len() == 0 && b.len() == 0 {
        assert(a =~= b);
    }
}

/// `chars_lt` is asymmetric.
pub proof fn lemma_chars_lt_asymmetric(a: Seq<char>, b: Seq<char>)
    requires
        chars_lt(a, b),
    ensures
        !chars_lt(b, a),
{
    if chars_lt(b, a) {
        lemma_chars_lt_transitive(a, b, a);
        lemma_chars_lt_irreflexive(a);
    }
}

/// The decimal representation is never empty.
pub proof fn lemma_decimal_nonempty(n: nat)
    ensures
        decimal(n).len() >= 1,
    decreases n,
{
    if n >= 10 {
        lemma_decimal_nonempty(n / 10);
    }
}

// ---------------------------------------------------------------------------
// Executable helpers
// ---------------------------------------------------------------------------

/// Calls `String::push`; the contract claims what its documentation says:
/// the character is appended at the end.
#[verifier::external_body]
fn push_char(s: &mut String, c: char)
    ensures
        final(s)@ == old(s)@.push(c),
{
    s.push(c);
}

/// The characters of `s`, in order.
pub fn to_chars(s: &str) -> (v: Vec<char>)
    ensures
        v@ == s@,
{
    let mut v: Vec<char> = Vec::new();
    for c in it: s.chars()
        invariant
            v@ == it.seq().take(it.index() as int),
            it.seq() == s@,
    {
        v.push(c);
    }
    v
}

/// A `String` holding exactly the characters of `v`.
pub fn from_chars(v: &[char]) -> (s: String)
    ensures
        s@ == v@,
{
    let mut s = String::new();
    let mut i: usize = 0;
    while i < v.len()
        invariant
            i <= v@.len(),
            s@ == v@.take(i as int),
        decreases v@.len() - i,
    {
        push_char(&mut s, v[i]);
        proof {
            assert(v@.take(i as int).push(v@[i as int]) =~= v@.take(i + 1));
        }
        i = i + 1;
    }
    proof {
        assert(v@.take(v@.len() as int) =~= v@);
    }
    s
}

/// The characters `v[a..b]`.
pub fn sub_chars(v: &[char], a: usize, b: usize) -> (r: Vec<char>)
    requires
        a <= b <= v@.len(),
    ensures
        r@ == v@.subrange(a as int, b as int),
{
    let mut r: Vec<char> = Vec::new();
    let mut i = a;
    while i < b
        invariant
            a <= i <= b <= v@.len(),
            r@ == v@.subrange(a as int, i as int),
        decreases b - i,
    {
        r.push(v[i]);
        proof {
            assert(v@.subrange(a as int, i as int).push(v@[i as int]) =~= v@.subrange(
                a as int,
                i + 1,
            ));
        }
        i = i + 1;
    }
    r
}

/// Appends the characters of `w` to `v`.
pub fn push_all(v: &mut Vec<char>, w: &[char])
    ensures
        final(v)@ == old(v)@ + w@,
{
    let mut i: usize = 0;
    while i < w.len()
        invariant
            i <= w@.len(),
            v@ == old(v)@ + w@.take(i as int),
        decreases w@.len() - i,
    {
        v.push(w[i]);
        proof {
            assert(old(v)@ + w@.take(i as int).push(w@[i as int]) =~= old(v)@ + w@.take(i + 1));
        }
        i = i + 1;
    }
    proof {
        assert(w@.take(w@.len() as int) =~= w@);
    }
}

/// Appends the characters of `s` to `v`.
pub fn push_str(v: &mut Vec<char>, s: &str)
    ensures
        final(v)@ == old(v)@ + s@,
{
    let w = to_chars(s);
    push_all(v, &w);
}

/// `a == b`.
pub fn chars_eq(a: &[char], b: &[char]) -> (r: bool)
    ensures
        r == (a@ == b@),
{
    if a.len() != b.len() {
        return false;
    }
    let mut i: usize = 0;
    while i < a.len()
        invariant
            a@.len() == b@.len(),
            i <= a@.len(),
            forall|k: int| 0 <= k < i ==> a@[k] == b@[k],
        decreases a@.len() - i,
    {
        if a[i] != b[i] {
            return false;
        }
        i = i + 1;
    }
    proof {
        assert(a@ =~= b@);
    }
    true
}

/// Whether the characters `a` spell the string `s`.
pub fn chars_eq_str(a: &[char], s: &str) -> (r: bool)
    ensures
        r == (a@ == s@),
{
    let b = to_chars(s);
    chars_eq(a, &b)
}

/// `s` starts with `p`.
pub fn starts_with(s: &[char], p: &[char]) -> (r: bool)
    ensures
        r == has_prefix(s@, p@),
{
    if p.len() > s.len() {
        return false;
    }
    let head = sub_chars(s, 0, p.len());
    proof {
        assert(head@ =~= s@.take(p@.len() as int));
    }
    chars_eq(&head, p)
}

/// `s` ends with `p`.
pub fn ends_with(s: &[char], p: &[char]) -> (r: bool)
    ensures
        r == has_suffix(s@, p@),
{
    if p.len() > s.len() {
        return false;
    }
    let tail = sub_chars(s, s.len() - p.len(), s.len());
    proof {
        assert(tail@ =~= s@.skip(s@.len() - p@.len()));
    }
    chars_eq(&tail, p)
}

/// `s` starts with the character `c`.
pub fn starts_with_char(s: &[char], c: char) -> (r: bool)
    ensures
        r == starts_with_ch(s@, c),
{
    s.len() > 0 && s[0] == c
}

/// `s` ends with the character `c`.
pub fn ends_with_char(s: &[char], c: char) -> (r: bool)
    ensures
        r == ends_with_ch(s@, c),
{
    s.len() > 0 && s[s.len() - 1] == c
}

/// Facts tying `find_first` to the characters it skips.
pub proof fn lemma_find_first(s: Seq<char>, c: char)
    ensures
        match find_first(s, c) {
            Some(i) => 0 <= i < s.len() && s[i] == c && forall|k: int| 0 <= k < i ==> s[k] != c,
            None => forall|k: int| 0 <= k < s.len() ==> s[k] != c,
        },
    decreases s.len(),
{
    if s.len() > 0 && s[0] != c {
        lemma_find_first(s.drop_first(), c);
        match find_first(s.drop_first(), c) {
            Some(i) => {
                assert forall|k: int| 0 <= k < i + 1 implies s[k] != c by {
                    if k > 0 {
                        assert(s[k] == s.drop_first()[k - 1]);
                    }
                }
            },
            None => {
                assert forall|k: int| 0 <= k < s.len() implies s[k] != c by {
                    if k > 0 {
                        assert(s[k] == s.drop_first()[k - 1]);
                    }
                }
            },
        }
    }
}

/// Facts tying `find_last` to the characters it skips.
pub proof fn lemma_find_last(s: Seq<char>, c: char)
    ensures
        match find_last(s, c) {
            Some(i) => 0 <= i < s.len() && s[i] == c && forall|k: int| i < k < s.len() ==> s[k]
                != c,
            None => forall|k: int| 0 <= k < s.len() ==> s[k] != c,
        },
    decreases s.len(),
{
    if s.len() > 0 && s.last() != c {
        lemma_find_last(s.drop_last(), c);
        assert forall|k: int| 0 <= k < s.len() - 1 implies s.drop_last()[k] == s[k] by {}
    }
}

/// The first index of `c` in `s`.
pub fn find_first_char(s: &[char], c: char) -> (r: Option<usize>)
    ensures
        match r {
            Some(i) => find_first(s@, c) == Some(i as int) && i < s@.len() && s@[i as int] == c,
            None => find_first(s@, c) is None,
        },
{
    let mut i: usize = 0;
    while i < s.len()
        invariant
            i <= s@.len(),
            forall|k: int| 0 <= k < i ==> s@[k] != c,
        decreases s@.len() - i,
    {
        if s[i] == c {
            proof {
                lemma_find_first(s@, c);
            }
            return Some(i);
        }
        i = i + 1;
    }
    proof {
        lemma_find_first(s@, c);
    }
    None
}

/// The last index of `c` in `s`.
pub fn find_last_char(s: &[char], c: char) -> (r: Option<usize>)
    ensures
        match r {
            Some(i) => find_last(s@, c) == Some(i as int) && i < s@.len() && s@[i as int] == c,
            None => find_last(s@, c) is None,
        },
{
    let mut i: usize = s.len();
    while i > 0
        invariant
            i <= s@.len(),
            forall|k: int| i <= k < s@.len() ==> s@[k] != c,
        decreases i,
    {
        if s[i - 1] == c {
            proof {
                lemma_find_last(s@, c);
            }
            return Some(i - 1);
        }
        i = i - 1;
    }
    proof {
        lemma_find_last(s@, c);
    }
    None
}

/// Whether `c` occurs in `s`.
pub fn contains_char(s: &[char], c: char) -> (r: bool)
    ensures
        r == s@.contains(c),
        r == (find_first(s@, c) is Some),
{
    proof {
        lemma_find_first(s@, c);
    }
    match find_first_char(s, c) {
        Some(i) => {
            assert(s@[i as int] == c);
            true
        },
        None => false,
    }
}

/// `trim_start_ch(s, c) == s.skip(k)` for the first `k` that is not `c`.
pub proof fn lemma_trim_start_ch_skip(s: Seq<char>, c: char, i: int)
    requires
        0 <= i <= s.len(),
        forall|k: int| 0 <= k < i ==> s[k] == c,
    ensures
        trim_start_ch(s, c) == trim_start_ch(s.skip(i), c),
    decreases i,
{
    if i > 0 {
        assert(s[0] == c);
        assert(s.drop_first().skip(i - 1) =~= s.skip(i));
        assert forall|k: int| 0 <= k < i - 1 implies s.drop_first()[k] == c by {
            assert(s.drop_first()[k] == s[k + 1]);
        }
        lemma_trim_start_ch_skip(s.drop_first(), c, i - 1);
    } else {
        assert(s.skip(0) =~= s);
    }
}

/// What `trim_start_ch` leaves: a suffix of `s` that does not start with `c`.
pub proof fn lemma_trim_start_ch_shape(s: Seq<char>, c: char)
    ensures
        trim_start_ch(s, c).len() <= s.len(),
        trim_start_ch(s, c) == s.skip(s.len() - trim_start_ch(s, c).len()),
        !starts_with_ch(trim_start_ch(s, c), c),
    decreases s.len(),
{
    if s.len() > 0 && s[0] == c {
        lemma_trim_start_ch_shape(s.drop_first(), c);
        let r = trim_start_ch(s.drop_first(), c);
        assert(s.drop_first().skip(s.len() - 1 - r.len()) =~= s.skip(s.len() - r.len()));
    } else {
        assert(s.skip(0) =~= s);
    }
}

/// What `trim_end_ch` leaves: a prefix of `s` that does not end with `c`.
pub proof fn lemma_trim_end_ch_shape(s: Seq<char>, c: char)
    ensures
        trim_end_ch(s, c).len() <= s.len(),
        trim_end_ch(s, c) == s.take(trim_end_ch(s, c).len() as int),
        !ends_with_ch(trim_end_ch(s, c), c),
    decreases s.len(),
{
    if s.len() > 0 && s.last() == c {
        lemma_trim_end_ch_shape(s.drop_last(), c);
        let r = trim_end_ch(s.drop_last(), c);
        assert(s.drop_last().take(r.len() as int) =~= s.take(r.len() as int));
    } else {
        assert(s.take(s.len() as int) =~= s);
    }
}

/// Trimming what does not start with `c` changes nothing.
pub proof fn lemma_trim_start_ch_noop(s: Seq<char>, c: char)
    requires
        !starts_with_ch(s, c),
    ensures
        trim_start_ch(s, c) == s,
{
}

/// Trimming what does not end with `c` changes nothing.
pub proof fn lemma_trim_end_ch_noop(s: Seq<char>, c: char)
    requires
        !ends_with_ch(s, c),
    ensures
        trim_end_ch(s, c) == s,
{
}

/// `trim_ch` leaves what neither starts nor ends with `c`.
pub proof fn lemma_trim_ch_shape(s: Seq<char>, c: char)
    ensures
        !starts_with_ch(trim_ch(s, c), c),
        !ends_with_ch(trim_ch(s, c), c),
{
    let u = trim_start_ch(s, c);
    lemma_trim_start_ch_shape(s, c);
    lemma_trim_end_ch_shape(u, c);
    let r = trim_end_ch(u, c);
    if r.len() > 0 {
        assert(r[0] == u[0]);
    }
}

/// `trim_end_ch(s, c) == s.take(j)` for the last `j` that is not `c`.
pub proof fn lemma_trim_end_ch_take(s: Seq<char>, c: char, j: int)
    requires
        0 <= j <= s.len(),
        forall|k: int| j <= k < s.len() ==> s[k] == c,
    ensures
        trim_end_ch(s, c) == trim_end_ch(s.take(j), c),
    decreases s.len() - j,
{
    if j < s.len() {
        assert(s.drop_last().take(j) =~= s.take(j));
        lemma_trim_end_ch_take(s.drop_last(), c, j);
    } else {
        assert(s.take(j) =~= s);
    }
}

/// `trim_start_ws(s) == s.skip(k)` for the first `k` that is not whitespace.
pub proof fn lemma_trim_start_ws_skip(s: Seq<char>, i: int)
    requires
        0 <= i <= s.len(),
        forall|k: int| 0 <= k < i ==> is_ws(s[k]),
    ensures
        trim_start_ws(s) == trim_start_ws(s.skip(i)),
    decreases i,
{
    if i > 0 {
        assert(is_ws(s[0]));
        assert(s.drop_first().skip(i - 1) =~= s.skip(i));
        assert forall|k: int| 0 <= k < i - 1 implies is_ws(s.drop_first()[k]) by {
            assert(s.drop_first()[k] == s[k + 1]);
        }
        lemma_trim_start_ws_skip(s.drop_first(), i - 1);
    } else {
        assert(s.skip(0) =~= s);
    }
}

/// `trim_end_ws(s) == s.take(j)` for the last `j` that is not whitespace.
pub proof fn lemma_trim_end_ws_take(s: Seq<char>, j: int)
    requires
        0 <= j <= s.len(),
        forall|k: int| j <= k < s.len() ==> is_ws(s[k]),
    ensures
        trim_end_ws(s) == trim_end_ws(s.take(j)),
    decreases s.len() - j,
{
    if j < s.len() {
        assert(s.drop_last().take(j) =~= s.take(j));
        lemma_trim_end_ws_take(s.drop_last(), j);
    } else {
        assert(s.take(j) =~= s);
    }
}

/// Number of leading `c` characters of `s`.
pub fn leading_count(s: &[char], c: char) -> (n: usize)
    ensures
        n <= s@.len(),
        s@.skip(n as int) == trim_start_ch(s@, c),
{
    let mut i: usize = 0;
    while i < s.len() && s[i] == c
        invariant
            i <= s@.len(),
            forall|k: int| 0 <= k < i ==> s@[k] == c,
        decreases s@.len() - i,
    {
        i = i + 1;
    }
    proof {
        lemma_trim_start_ch_skip(s@, c, i as int);
    }
    i
}

/// Length of `s` without its trailing `c` characters.
pub fn trailing_cut(s: &[char], c: char) -> (n: usize)
    ensures
        n <= s@.len(),
        s@.take(n as int) == trim_end_ch(s@, c),
{
    let mut j: usize = s.len();
    while j > 0 && s[j - 1] == c
        invariant
            j <= s@.len(),
            forall|k: int| j <= k < s@.len() ==> s@[k] == c,
        decreases j,
    {
        j = j - 1;
    }
    proof {
        lemma_trim_end_ch_take(s@, c, j as int);
    }
    j
}

/// `s.trim_start_matches(c)`.
pub fn trim_start_char(s: &[char], c: char) -> (r: Vec<char>)
    ensures
        r@ == trim_start_ch(s@, c),
{
    let n = leading_count(s, c);
    sub_chars(s, n, s.len())
}

/// `s.trim_end_matches(c)`.
pub fn trim_end_char(s: &[char], c: char) -> (r: Vec<char>)
    ensures
        r@ == trim_end_ch(s@, c),
{
    let n = trailing_cut(s, c);
    sub_chars(s, 0, n)
}

/// `s.trim_matches(c)`.
pub fn trim_char(s: &[char], c: char) -> (r: Vec<char>)
    ensures
        r@ == trim_ch(s@, c),
{
    let t = trim_start_char(s, c);
    trim_end_char(&t, c)
}

/// Whether `c` is Unicode whitespace (`char::is_whitespace`).
pub fn is_whitespace(c: char) -> (r: bool)
    ensures
        r == is_ws(c),
{
    let n = c as u32;
    (0x09 <= n && n <= 0x0d) || n == 0x20 || n == 0x85 || n == 0xa0 || n == 0x1680 || (0x2000 <= n
        && n <= 0x200a) || n == 0x2028 || n == 0x2029 || n == 0x202f || n == 0x205f || n == 0x3000
}

/// `s.trim()`.
pub fn trim_whitespace(s: &[char]) -> (r: Vec<char>)
    ensures
        r@ == trim_ws(s@),
{
    let mut i: usize = 0;
    while i < s.len() && is_whitespace(s[i])
        invariant
            i <= s@.len(),
            forall|k: int| 0 <= k < i ==> is_ws(s@[k]),
        decreases s@.len() - i,
    {
        i = i + 1;
    }
    proof {
        lemma_trim_start_ws_skip(s@, i as int);
    }
    let t = sub_chars(s, i, s.len());
    let mut j: usize = t.len();
    while j > 0 && is_whitespace(t[j - 1])
        invariant
            j <= t@.len(),
            forall|k: int| j <= k < t@.len() ==> is_ws(t@[k]),
        decreases j,
    {
        j = j - 1;
    }
    proof {
        lemma_trim_end_ws_take(t@, j as int);
    }
    sub_chars(&t, 0, j)
}

/// `c.to_ascii_lowercase()`.
pub fn ascii_lower_char(c: char) -> (r: char)
    ensures
        r == ascii_lower_ch(c),
{
    if 'A' <= c && c <= 'Z' {
        let b = (c as u8) + 32;
        b as char
    } else {
        c
    }
}

/// `s.to_ascii_lowercase()`.
pub fn ascii_lowercase(s: &[char]) -> (r: Vec<char>)
    ensures
        r@ == ascii_lower(s@),
{
    let mut r: Vec<char> = Vec::new();
    let mut i: usize = 0;
    while i < s.len()
        invariant
            i <= s@.len(),
            r@ == ascii_lower(s@.take(i as int)),
        decreases s@.len() - i,
    {
        r.push(ascii_lower_char(s[i]));
        proof {
            assert(ascii_lower(s@.take(i + 1)) =~= ascii_lower(s@.take(i as int)).push(
                ascii_lower_ch(s@[i as int]),
            ));
        }
        i = i + 1;
    }
    proof {
        assert(s@.take(s@.len() as int) =~= s@);
    }
    r
}

/// The decimal digit `d` as a character.
pub fn digit(d: u64) -> (c: char)
    requires
        d < 10,
    ensures
        c == digit_char(d as nat),
{
    if d == 0 {
        '0'
    } else if d == 1 {
        '1'
    } else if d == 2 {
        '2'
    } else if d == 3 {
        '3'
    } else if d == 4 {
        '4'
    } else if d == 5 {
        '5'
    } else if d == 6 {
        '6'
    } else if d == 7 {
        '7'
    } else if d == 8 {
        '8'
    } else {
        '9'
    }
}

/// The decimal representation of `n`.
pub fn decimal_chars(n: u64) -> (r: Vec<char>)
    ensures
        r@ == decimal(n as nat),
    decreases n,
{
    if n < 10 {
        let mut r: Vec<char> = Vec::new();
        r.push(digit(n));
        r
    } else {
        let mut r = decimal_chars(n / 10);
        r.push(digit(n % 10));
        r
    }
}

/// `format!("{s:>width$}")`.
pub fn pad_left_chars(s: &[char], width: usize) -> (r: Vec<char>)
    ensures
        r@ == pad_left(s@, width as nat),
{
    if s.len() >= width {
        return sub_chars(s, 0, s.len());
    }
    let fill = width - s.len();
    let mut r: Vec<char> = Vec::new();
    let mut i: usize = 0;
    while i < fill
        invariant
            i <= fill,
            r@ == Seq::new(i as nat, |k: int| ' '),
        decreases fill - i,
    {
        r.push(' ');
        proof {
            assert(r@ =~= Seq::new((i + 1) as nat, |k: int| ' '));
        }
        i = i + 1;
    }
    push_all(&mut r, s);
    r
}

/// `format!("{s:<width$}")`.
pub fn pad_right_chars(s: &[char], width: usize) -> (r: Vec<char>)
    ensures
        r@ == pad_right(s@, width as nat),
{
    let mut r = sub_chars(s, 0, s.len());
    proof {
        assert(r@ =~= s@);
    }
    if s.len() >= width {
        return r;
    }
    let fill = width - s.len();
    let mut i: usize = 0;
    while i < fill
        invariant
            i <= fill,
            r@ == s@ + Seq::new(i as nat, |k: int| ' '),
        decreases fill - i,
    {
        r.push(' ');
        proof {
            assert(r@ =~= s@ + Seq::new((i + 1) as nat, |k: int| ' '));
        }
        i = i + 1;
    }
    r
}

/// `chars_lt(a, b)`: whether `a` sorts strictly before `b`.
pub fn chars_less(a: &[char], b: &[char]) -> (r: bool)
    ensures
        r == chars_lt(a@, b@),
{
    let mut i: usize = 0;
    proof {
        assert(a@.skip(0) =~= a@);
        assert(b@.skip(0) =~= b@);
    }
    while i < a.len() && i < b.len() && a[i] == b[i]
        invariant
            i <= a@.len(),
            i <= b@.len(),
            chars_lt(a@, b@) == chars_lt(a@.skip(i as int), b@.skip(i as int)),
        decreases a@.len() - i,
    {
        proof {
            assert(a@.skip(i as int).drop_first() =~= a@.skip(i + 1));
            assert(b@.skip(i as int).drop_first() =~= b@.skip(i + 1));
        }
        i = i + 1;
    }
    if i == a.len() {
        i < b.len()
    } else if i == b.len() {
        false
    } else {
        (a[i] as u32) < (b[i] as u32)
    }
}

/// An ASCII decimal digit.
pub open spec fn is_digit(c: char) -> bool {
    48 <= (c as u32) <= 57
}

/// The value of a decimal digit.
pub open spec fn digit_value(c: char) -> nat {
    ((c as u32) - 48) as nat
}

/// The value of a string of decimal digits, most significant first.
pub open spec fn digits_value(s: Seq<char>) -> nat
    decreases s.len(),
{
    if s.len() == 0 {
        0
    } else {
        digits_value(s.drop_last()) * 10 + digit_value(s.last())
    }
}

/// Every character is a decimal digit.
pub open spec fn all_digits(d: Seq<char>) -> bool {
    forall|i: int| 0 <= i < d.len() ==> is_digit(#[trigger] d[i])
}

/// `str::parse::<u64>`: an optional `+`, then at least one decimal digit,
/// of a value that fits.
pub open spec fn spec_parse_u64(s: Seq<char>) -> Option<u64> {
    let d = if s.len() > 0 && s[0] == '+' {
        s.skip(1)
    } else {
        s
    };
    if d.len() > 0 && all_digits(d) && digits_value(d) <= u64::MAX {
        Some(digits_value(d) as u64)
    } else {
        None
    }
}

/// The value of a longer prefix of digits is at least that of a shorter one.
proof fn lemma_digits_value_grows(s: Seq<char>, i: int, j: int)
    requires
        0 <= i <= j <= s.len(),
        forall|k: int| 0 <= k < s.len() ==> is_digit(#[trigger] s[k]),
    ensures
        digits_value(s.take(i)) <= digits_value(s.take(j)),
    decreases j - i,
{
    if i < j {
        lemma_digits_value_grows(s, i, j - 1);
        assert(s.take(j).drop_last() =~= s.take(j - 1));
    }
}

/// Parses a decimal `u64` as `str::parse` does.
pub fn parse_u64(s: &str) -> (r: Option<u64>)
    ensures
        r == spec_parse_u64(s@),
{
    let c = to_chars(s);
    let start: usize = if c.len() > 0 && c[0] == '+' {
        1
    } else {
        0
    };
    let ghost d = c@.skip(start as int);
    proof {
        if c@.len() > 0 && c@[0] == '+' {
            assert(d =~= s@.skip(1));
        } else {
            assert(d =~= s@);
        }
    }
    if start == c.len() {
        return None;
    }
    let mut v: u64 = 0;
    let mut i: usize = start;
    proof {
        assert(d.take(0) =~= Seq::<char>::empty());
    }
    while i < c.len()
        invariant
            start <= i <= c@.len(),
            c@ == s@,
            start == 1 <==> (s@.len() > 0 && s@[0] == '+'),
            start == 0 || start == 1,
            d == c@.skip(start as int),
            forall|k: int| 0 <= k < i - start ==> is_digit(#[trigger] d[k]),
            v as nat == digits_value(d.take(i - start)),
        decreases c@.len() - i,
    {
        let ch = c[i];
        proof {
            assert(d[i - start] == ch);
            assert(d.take(i - start + 1).drop_last() =~= d.take(i - start));
        }
        let code = ch as u32;
        if !(48 <= code && code <= 57) {
            proof {
                let sd = if s@.len() > 0 && s@[0] == '+' {
                    s@.skip(1)
                } else {
                    s@
                };
                assert(sd == d);
                assert(0 <= i - start < d.len());
                assert(!is_digit(d[i - start]));
                assert(!all_digits(sd));
            }
            return None;
        }
        let dv = (code - 48) as u64;
        proof {
            assert(dv as nat == digit_value(ch));
            assert(digits_value(d.take(i - start + 1)) == v * 10 + dv);
        }
        if v > (u64::MAX - dv) / 10 {
            proof {
                assert(v * 10 + dv > u64::MAX) by (nonlinear_arith)
                    requires
                        v > (u64::MAX - dv) / 10,
                        dv <= 9,
                ;
                let sd = if s@.len() > 0 && s@[0] == '+' {
                    s@.skip(1)
                } else {
                    s@
                };
                assert(sd == d);
                if all_digits(d) {
                    lemma_digits_value_grows(d, i - start + 1, d.len() as int);
                    assert(d.take(d.len() as int) =~= d);
                    assert(digits_value(d) > u64::MAX);
                }
            }
            return None;
        }
        v = v * 10 + dv;
        i = i + 1;
    }
    proof {
        assert(d.take(d.len() as int) =~= d);
    }
    Some(v)
}

/// The digit character of `d` is a digit of value `d`.
proof fn lemma_digit_char(d: nat)
    requires
        d < 10,
    ensures
        is_digit(digit_char(d)),
        digit_value(digit_char(d)) == d,
{
}

/// The characters of a decimal representation are digits, and they are
/// worth the number.
proof fn lemma_decimal_digits(n: nat)
    ensures
        all_digits(decimal(n)),
        digits_value(decimal(n)) == n,
    decreases n,
{
    if n < 10 {
        lemma_digit_char(n);
        assert(seq![digit_char(n)].drop_last() =~= Seq::<char>::empty());
        assert(digits_value(Seq::<char>::empty()) == 0);
        assert(decimal(n) == seq![digit_char(n)]);
        assert(digits_value(decimal(n)) == digits_value(Seq::<char>::empty()) * 10 + digit_value(
            digit_char(n),
        ));
    } else {
        lemma_decimal_digits(n / 10);
        lemma_digit_char(n % 10);
        let d = decimal(n);
        assert(d.drop_last() == decimal(n / 10));
        assert(d.last() == digit_char(n % 10));
        assert(digits_value(d) == digits_value(decimal(n / 10)) * 10 + digit_value(d.last()));
        assert((n / 10) * 10 + n % 10 == n);
        assert forall|i: int| 0 <= i < d.len() implies is_digit(#[trigger] d[i]) by {
            if i < d.len() - 1 {
                assert(d[i] == decimal(n / 10)[i]);
            }
        }
    }
}

/// Reading back a written number gives the number: `u64` parsing undoes
/// `Display`.
pub proof fn law_parse_reads_decimal(n: u64)
    ensures
        spec_parse_u64(decimal(n as nat)) == Some(n),
{
    lemma_decimal_digits(n as nat);
    lemma_decimal_nonempty(n as nat);
    let d = decimal(n as nat);
    assert(is_digit(d[0]));
}

} // verus!
