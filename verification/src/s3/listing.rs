//! What a listing shows: the entries directly under a prefix, directories
//! first, each group by name.

use vstd::prelude::*;

use crate::sorting::{group, lemma_group_insert, lemma_group_push};
use crate::text::{
    chars_eq, chars_less, chars_lt, contains_char, ends_with_ch, ends_with_char, from_chars,
    has_prefix, lemma_chars_lt_asymmetric, pairs_view, lemma_chars_lt_irreflexive, lemma_chars_lt_total,
    lemma_chars_lt_transitive, starts_with, strings_view, sub_chars, to_chars, trim_end_ch,
    trim_end_char,
};

verus! {

/// One line of a listing.
#[derive(Debug, Clone, PartialEq, Eq)]
pub struct RemoteEntry {
    pub name: String,
    pub is_dir: bool,
    pub size: Option<i64>,
    pub modified: Option<String>,
}

/// The model of a [`RemoteEntry`].
pub ghost struct EntryModel {
    pub name: Seq<char>,
    pub is_dir: bool,
    pub size: Option<i64>,
    pub modified: Option<Seq<char>>,
}

impl View for RemoteEntry {
    type V = EntryModel;

    open spec fn view(&self) -> EntryModel {
        EntryModel {
            name: self.name@,
            is_dir: self.is_dir,
            size: self.size,
            modified: crate::command::types::opt_str_view(self.modified),
        }
    }
}

/// The models of a sequence of entries.
pub open spec fn entries_view(v: Seq<RemoteEntry>) -> Seq<EntryModel> {
    Seq::new(v.len(), |i: int| v[i]@)
}

/// What entries are ordered by.
pub open spec fn entry_key(e: EntryModel) -> (bool, Seq<char>) {
    (e.is_dir, e.name)
}

/// [`entry_key`] as a function value.
pub open spec fn entry_key_fn() -> spec_fn(EntryModel) -> (bool, Seq<char>) {
    |e: EntryModel| entry_key(e)
}

/// `a` is listed before `b`: directories first, then by name.
pub open spec fn entry_before(a: EntryModel, b: EntryModel) -> bool {
    (a.is_dir && !b.is_dir) || (a.is_dir == b.is_dir && chars_lt(a.name, b.name))
}

/// Listed in order.
pub open spec fn entries_sorted(s: Seq<EntryModel>) -> bool {
    forall|i: int, j: int| 0 <= i < j < s.len() ==> !entry_before(#[trigger] s[j], #[trigger] s[i])
}

/// In a listing in order, every directory comes before every file.
pub proof fn law_dirs_before_files(s: Seq<EntryModel>)
    requires
        entries_sorted(s),
    ensures
        forall|i: int, j: int| 0 <= i < j < s.len() && (#[trigger] s[j]).is_dir ==> (
        #[trigger] s[i]).is_dir,
{
    assert forall|i: int, j: int| 0 <= i < j < s.len() && (#[trigger] s[j]).is_dir implies (
    #[trigger] s[i]).is_dir by {
        assert(!entry_before(s[j], s[i]));
    }
}

proof fn lemma_before_facts(a: EntryModel, b: EntryModel, c: EntryModel)
    ensures
        !entry_before(a, a),
        entry_before(a, b) ==> !entry_before(b, a),
        entry_before(a, b) && entry_before(b, c) ==> entry_before(a, c),
        !entry_before(a, b) && !entry_before(b, a) ==> entry_key(a) == entry_key(b),
        entry_before(a, b) && entry_key(b) == entry_key(c) ==> entry_before(a, c),
        entry_before(a, b) ==> entry_key(a) != entry_key(b),
{
    lemma_chars_lt_irreflexive(a.name);
    if chars_lt(a.name, b.name) {
        lemma_chars_lt_asymmetric(a.name, b.name);
    }
    if chars_lt(a.name, b.name) && chars_lt(b.name, c.name) {
        lemma_chars_lt_transitive(a.name, b.name, c.name);
    }
    lemma_chars_lt_total(a.name, b.name);
}

/// `s` with the prefix `p` removed, where it starts with it.
pub open spec fn strip_prefix_or_self(s: Seq<char>, p: Seq<char>) -> Seq<char> {
    if has_prefix(s, p) {
        s.skip(p.len() as int)
    } else {
        s
    }
}

/// The name a common prefix shows as under `base`.
pub open spec fn spec_prefix_name(prefix: Option<Seq<char>>, base: Seq<char>) -> Option<Seq<char>> {
    match prefix {
        None => None,
        Some(full) => {
            let trimmed = trim_end_ch(strip_prefix_or_self(full, base), '/');
            if trimmed.len() == 0 {
                None
            } else {
                Some(trimmed)
            }
        },
    }
}

/// The name an object shows as under `base`: none for the directory marker
/// of `base` itself or for what lies deeper.
pub open spec fn spec_object_name(key: Option<Seq<char>>, base: Seq<char>) -> Option<Seq<char>> {
    match key {
        None => None,
        Some(key) => if key == base {
            None
        } else {
            let trimmed = strip_prefix_or_self(key, base);
            if trimmed.len() == 0 || trimmed.contains('/') {
                None
            } else {
                Some(trimmed)
            }
        },
    }
}

/// A directory marker object directly under `base`: the directory's name
/// and the object's formatted modification time.
pub open spec fn spec_dir_marker(
    key: Option<Seq<char>>,
    base: Seq<char>,
    modified: Option<Seq<char>>,
) -> Option<(Seq<char>, Seq<char>)> {
    match key {
        None => None,
        Some(key) => if key == base || !ends_with_ch(key, '/') {
            None
        } else {
            let trimmed = trim_end_ch(strip_prefix_or_self(key, base), '/');
            if trimmed.len() == 0 || trimmed.contains('/') {
                None
            } else {
                match modified {
                    Some(m) => Some((trimmed, m)),
                    None => None,
                }
            }
        },
    }
}

/// `s` without the prefix `p`, where it starts with it.
fn strip_prefix_chars(s: &[char], p: &[char]) -> (r: Vec<char>)
    ensures
        r@ == strip_prefix_or_self(s@, p@),
{
    if starts_with(s, p) {
        sub_chars(s, p.len(), s.len())
    } else {
        sub_chars(s, 0, s.len())
    }
}

/// The name a common prefix shows as under `base`.
pub fn prefix_name(prefix: Option<&str>, base: &str) -> (r: Option<String>)
    ensures
        crate::command::types::opt_str_view(r) == spec_prefix_name(
            crate::command::parse::opt_str_view(prefix),
            base@,
        ),
{
    let full = match prefix {
        Some(p) => to_chars(p),
        None => return None,
    };
    let b = to_chars(base);
    let stripped = strip_prefix_chars(&full, &b);
    let trimmed = trim_end_char(&stripped, '/');
    if trimmed.len() == 0 {
        None
    } else {
        Some(from_chars(&trimmed))
    }
}

/// The name an object shows as under `base`.
pub fn object_name(key: Option<&str>, base: &str) -> (r: Option<String>)
    ensures
        crate::command::types::opt_str_view(r) == spec_object_name(
            crate::command::parse::opt_str_view(key),
            base@,
        ),
{
    let k = match key {
        Some(k) => to_chars(k),
        None => return None,
    };
    let b = to_chars(base);
    if chars_eq(&k, &b) {
        return None;
    }
    let trimmed = strip_prefix_chars(&k, &b);
    if trimmed.len() == 0 || contains_char(&trimmed, '/') {
        None
    } else {
        Some(from_chars(&trimmed))
    }
}

/// A directory marker object directly under `base`: its name and time.
pub fn dir_marker_metadata(key: Option<&str>, base: &str, modified: Option<&str>) -> (r: Option<
    (String, String),
>)
    ensures
        match r {
            Some((n, m)) => spec_dir_marker(
                crate::command::parse::opt_str_view(key),
                base@,
                crate::command::parse::opt_str_view(modified),
            ) == Some((n@, m@)),
            None => spec_dir_marker(
                crate::command::parse::opt_str_view(key),
                base@,
                crate::command::parse::opt_str_view(modified),
            ) is None,
        },
{
    let k = match key {
        Some(k) => to_chars(k),
        None => return None,
    };
    let b = to_chars(base);
    if chars_eq(&k, &b) || !ends_with_char(&k, '/') {
        return None;
    }
    let stripped = strip_prefix_chars(&k, &b);
    let trimmed = trim_end_char(&stripped, '/');
    if trimmed.len() == 0 || contains_char(&trimmed, '/') {
        return None;
    }
    match modified {
        Some(m) => Some((from_chars(&trimmed), m.to_owned())),
        None => None,
    }
}

/// The time of the last marker of the directory `name`.
pub open spec fn marker_lookup(markers: Seq<(Seq<char>, Seq<char>)>, name: Seq<char>) -> Option<
    Seq<char>,
>
    decreases markers.len(),
{
    if markers.len() == 0 {
        None
    } else if markers.last().0 == name {
        Some(markers.last().1)
    } else {
        marker_lookup(markers.drop_last(), name)
    }
}

/// The entry of the directory `name`.
pub open spec fn dir_entry(markers: Seq<(Seq<char>, Seq<char>)>, name: Seq<char>) -> EntryModel {
    EntryModel { name, is_dir: true, size: None, modified: marker_lookup(markers, name) }
}

/// The entries before sorting: the directories, then the files.
pub open spec fn unsorted_entries(
    dir_names: Seq<Seq<char>>,
    markers: Seq<(Seq<char>, Seq<char>)>,
    files: Seq<EntryModel>,
) -> Seq<EntryModel> {
    Seq::new(dir_names.len(), |i: int| dir_entry(markers, dir_names[i])) + files
}

fn clone_opt_string(s: &Option<String>) -> (r: Option<String>)
    ensures
        crate::command::types::opt_str_view(r) == crate::command::types::opt_str_view(*s),
{
    match s {
        Some(s) => Some(s.clone()),
        None => None,
    }
}

/// The time of the last marker of the directory `name`.
fn find_marker(markers: &Vec<(String, String)>, name: &[char]) -> (r: Option<String>)
    ensures
        crate::command::types::opt_str_view(r) == marker_lookup(pairs_view(markers@), name@),
{
    let mut i = markers.len();
    proof {
        assert(markers@.take(i as int) =~= markers@);
    }
    while i > 0
        invariant
            i <= markers@.len(),
            marker_lookup(pairs_view(markers@), name@) == marker_lookup(
                pairs_view(markers@.take(i as int)),
                name@,
            ),
        decreases i,
    {
        let k = to_chars(markers[i - 1].0.as_str());
        proof {
            let pv = pairs_view(markers@.take(i as int));
            assert(pv.drop_last() =~= pairs_view(markers@.take(i - 1)));
            assert(pv.last() == (markers@[i - 1].0@, markers@[i - 1].1@));
        }
        if chars_eq(&k, name) {
            return Some(markers[i - 1].1.clone());
        }
        i = i - 1;
    }
    None
}

/// `x` (whose name is `xname`) is listed before `e`.
fn listed_before(x: &RemoteEntry, xname: &Vec<char>, e: &RemoteEntry) -> (r: bool)
    requires
        xname@ == x.name@,
    ensures
        r == entry_before(x@, e@),
{
    let en = to_chars(e.name.as_str());
    (x.is_dir && !e.is_dir) || (x.is_dir == e.is_dir && chars_less(xname, &en))
}

/// Inserts `x` into `out`, after every entry not listed after it.
fn insert_entry(out: &mut Vec<RemoteEntry>, x: RemoteEntry)
    requires
        entries_sorted(entries_view(old(out)@)),
    ensures
        entries_sorted(entries_view(final(out)@)),
        forall|k: (bool, Seq<char>)| #[trigger]
            group(entries_view(final(out)@), entry_key_fn(), k) == group(
                entries_view(old(out)@).push(x@),
                entry_key_fn(),
                k,
            ),
{
    let ghost before = entries_view(out@);
    let ghost key = entry_key_fn();
    let xname = to_chars(x.name.as_str());
    let mut p: usize = 0;
    while p < out.len() && !listed_before(&x, &xname, &out[p])
        invariant
            p <= out@.len(),
            before == entries_view(out@),
            xname@ == x@.name,
            forall|a: int| 0 <= a < p ==> !entry_before(x@, #[trigger] before[a]),
        decreases out@.len() - p,
    {
        p = p + 1;
    }
    proof {
        if p < out@.len() {
            assert(entry_before(x@, before[p as int]));
        }
        assert forall|j: int| p <= j < before.len() implies key(#[trigger] before[j]) != key(x@) by {
            lemma_before_facts(x@, before[p as int], before[j]);
            if j > p {
                lemma_before_facts(before[j], before[p as int], x@);
                lemma_before_facts(before[p as int], before[j], x@);
                lemma_before_facts(x@, before[p as int], before[j]);
            }
        }
        lemma_group_insert(before, p as int, x@, key);
    }
    let ghost xv = x@;
    out.insert(p, x);
    proof {
        assert(entries_view(out@) =~= before.insert(p as int, xv));
        let s = entries_view(out@);
        assert forall|a: int, b: int| 0 <= a < b < s.len() implies !entry_before(
            #[trigger] s[b],
            #[trigger] s[a],
        ) by {
            if b < p {
            } else if b == p {
                assert(s[a] == before[a]);
            } else if a == p {
                assert(s[b] == before[b - 1]);
                lemma_before_facts(xv, before[p as int], before[b - 1]);
                lemma_before_facts(before[b - 1], before[p as int], xv);
                lemma_before_facts(before[p as int], before[b - 1], xv);
            } else if a < p {
                assert(s[a] == before[a] && s[b] == before[b - 1]);
            } else {
                assert(s[a] == before[a - 1] && s[b] == before[b - 1]);
            }
        }
    }
}

/// Lists directories first, then files, each group in name order; entries
/// with equal names keep their order. `dir_markers` holds, for a directory,
/// the modification time of its marker object (the last pair for a name
/// counts).
pub fn merge_remote_entries(
    dir_markers: Vec<(String, String)>,
    dir_names: Vec<String>,
    files: Vec<RemoteEntry>,
) -> (r: Vec<RemoteEntry>)
    ensures
        entries_sorted(entries_view(r@)),
        forall|k: (bool, Seq<char>)| #[trigger]
            group(entries_view(r@), entry_key_fn(), k) == group(
                unsorted_entries(
                    strings_view(dir_names@),
                    pairs_view(dir_markers@),
                    entries_view(files@),
                ),
                entry_key_fn(),
                k,
            ),
{
    let ghost all = unsorted_entries(
        strings_view(dir_names@),
        pairs_view(dir_markers@),
        entries_view(files@),
    );
    let ghost nd = dir_names@.len();
    let mut out: Vec<RemoteEntry> = Vec::new();
    let mut i: usize = 0;
    proof {
        assert(all.take(0) =~= Seq::<EntryModel>::empty());
        assert(entries_view(out@) =~= Seq::<EntryModel>::empty());
    }
    while i < dir_names.len()
        invariant
            nd == dir_names@.len(),
            all == unsorted_entries(
                strings_view(dir_names@),
                pairs_view(dir_markers@),
                entries_view(files@),
            ),
            i <= nd,
            entries_sorted(entries_view(out@)),
            forall|k: (bool, Seq<char>)| #[trigger]
                group(entries_view(out@), entry_key_fn(), k) == group(
                    all.take(i as int),
                    entry_key_fn(),
                    k,
                ),
        decreases nd - i,
    {
        let n = to_chars(dir_names[i].as_str());
        let modified = find_marker(&dir_markers, &n);
        let e = RemoteEntry { name: dir_names[i].clone(), is_dir: true, size: None, modified };
        proof {
            assert(e@ == all[i as int]);
            assert(all.take(i + 1) =~= all.take(i as int).push(e@));
            assert forall|k: (bool, Seq<char>)| #[trigger]
                group(entries_view(out@).push(e@), entry_key_fn(), k) == group(
                    all.take(i + 1),
                    entry_key_fn(),
                    k,
                ) by {
                lemma_group_push(entries_view(out@), e@, entry_key_fn(), k);
                lemma_group_push(all.take(i as int), e@, entry_key_fn(), k);
            }
        }
        insert_entry(&mut out, e);
        i = i + 1;
    }
    let nf = files.len();
    let mut rest = files;
    let ghost fv = entries_view(rest@);
    proof {
        assert(fv.skip(0) =~= fv);
    }
    let mut j: usize = 0;
    while j < nf
        invariant
            nf == fv.len(),
            all == Seq::new(nd, |t: int| all[t]) + fv,
            all.len() == nd + nf,
            entries_view(rest@) == fv.skip(j as int),
            rest@.len() == nf - j,
            j <= nf,
            entries_sorted(entries_view(out@)),
            forall|k: (bool, Seq<char>)| #[trigger]
                group(entries_view(out@), entry_key_fn(), k) == group(
                    all.take(nd + j),
                    entry_key_fn(),
                    k,
                ),
        decreases nf - j,
    {
        let ghost rest_before = rest@;
        let e = rest.remove(0);
        proof {
            assert(entries_view(rest_before)[0] == rest_before[0]@);
            assert(e@ == fv[j as int]);
            assert forall|t: int| 0 <= t < rest@.len() implies #[trigger] entries_view(rest@)[t]
                == fv.skip(j + 1)[t] by {
                assert(rest@[t] == rest_before[t + 1]);
                assert(entries_view(rest_before)[t + 1] == rest_before[t + 1]@);
            }
            assert(entries_view(rest@) =~= fv.skip(j + 1));
            assert(all[nd + j] == fv[j as int]);
            assert(all.take(nd + j + 1) =~= all.take(nd + j).push(e@));
            assert forall|k: (bool, Seq<char>)| #[trigger]
                group(entries_view(out@).push(e@), entry_key_fn(), k) == group(
                    all.take(nd + j + 1),
                    entry_key_fn(),
                    k,
                ) by {
                lemma_group_push(entries_view(out@), e@, entry_key_fn(), k);
                lemma_group_push(all.take(nd + j), e@, entry_key_fn(), k);
            }
        }
        insert_entry(&mut out, e);
        j = j + 1;
    }
    proof {
        assert(all.take(nd + nf) =~= all);
    }
    out
}

// ---------------------------------------------------------------------------
// Collecting the pages of a listing
// ---------------------------------------------------------------------------

/// An object as a listing page shows it: its key, its size, and its
/// modification time as displayed.
#[derive(Debug, Clone, PartialEq, Eq)]
pub struct ListedObject {
    pub key: Option<String>,
    pub size: Option<i64>,
    pub modified: Option<String>,
}

/// The model of a [`ListedObject`].
pub ghost struct ListedObjectModel {
    pub key: Option<Seq<char>>,
    pub size: Option<i64>,
    pub modified: Option<Seq<char>>,
}

impl View for ListedObject {
    type V = ListedObjectModel;

    open spec fn view(&self) -> ListedObjectModel {
        ListedObjectModel {
            key: crate::command::types::opt_str_view(self.key),
            size: self.size,
            modified: crate::command::types::opt_str_view(self.modified),
        }
    }
}

/// The models of listed objects.
pub open spec fn objects_view(v: Seq<ListedObject>) -> Seq<ListedObjectModel> {
    Seq::new(v.len(), |i: int| v[i]@)
}

/// The models of optional strings.
pub open spec fn opt_strings_view(v: Seq<Option<String>>) -> Seq<Option<Seq<char>>> {
    Seq::new(v.len(), |i: int| crate::command::types::opt_str_view(v[i]))
}

/// The directory markers among `objects`, in order.
pub open spec fn page_markers(objects: Seq<ListedObjectModel>, base: Seq<char>) -> Seq<
    (Seq<char>, Seq<char>),
>
    decreases objects.len(),
{
    if objects.len() == 0 {
        Seq::empty()
    } else {
        let rest = page_markers(objects.drop_last(), base);
        let o = objects.last();
        match spec_dir_marker(o.key, base, o.modified) {
            Some(m) => rest.push(m),
            None => rest,
        }
    }
}

/// The files among `objects`, in order.
pub open spec fn page_files(objects: Seq<ListedObjectModel>, base: Seq<char>) -> Seq<EntryModel>
    decreases objects.len(),
{
    if objects.len() == 0 {
        Seq::empty()
    } else {
        let rest = page_files(objects.drop_last(), base);
        let o = objects.last();
        match spec_object_name(o.key, base) {
            Some(n) => rest.push(EntryModel { name: n, is_dir: false, size: o.size, modified: o.modified }),
            None => rest,
        }
    }
}

/// The directory names the common prefixes show.
pub open spec fn page_dir_names(prefixes: Seq<Option<Seq<char>>>, base: Seq<char>) -> Seq<
    Seq<char>,
>
    decreases prefixes.len(),
{
    if prefixes.len() == 0 {
        Seq::empty()
    } else {
        let rest = page_dir_names(prefixes.drop_last(), base);
        match spec_prefix_name(prefixes.last(), base) {
            Some(n) => rest.push(n),
            None => rest,
        }
    }
}

/// What the pages of a listing have shown so far: the directory markers,
/// the directory names (sorted, each once) and the files.
#[derive(Debug)]
pub struct ListingAccumulator {
    markers: Vec<(String, String)>,
    dir_names: Vec<String>,
    files: Vec<RemoteEntry>,
}

impl ListingAccumulator {
    /// The directory markers seen, in order.
    pub closed spec fn markers(self) -> Seq<(Seq<char>, Seq<char>)> {
        pairs_view(self.markers@)
    }

    /// The directory names seen.
    pub closed spec fn dir_names(self) -> Seq<Seq<char>> {
        strings_view(self.dir_names@)
    }

    /// The files seen, in order.
    pub closed spec fn files(self) -> Seq<EntryModel> {
        entries_view(self.files@)
    }

    /// The directory names are sorted, each once.
    pub open spec fn wf(self) -> bool {
        crate::key_set::strictly_sorted(self.dir_names())
    }

    /// Nothing seen yet.
    pub fn new() -> (r: ListingAccumulator)
        ensures
            r.wf(),
            r.markers() == Seq::<(Seq<char>, Seq<char>)>::empty(),
            r.dir_names() == Seq::<Seq<char>>::empty(),
            r.files() == Seq::<EntryModel>::empty(),
    {
        let r = ListingAccumulator { markers: Vec::new(), dir_names: Vec::new(), files: Vec::new() };
        proof {
            assert(pairs_view(r.markers@) =~= Seq::<(Seq<char>, Seq<char>)>::empty());
            assert(strings_view(r.dir_names@) =~= Seq::<Seq<char>>::empty());
            assert(entries_view(r.files@) =~= Seq::<EntryModel>::empty());
        }
        r
    }

    /// Takes in one page of a listing under `base`: its objects and its
    /// common prefixes.
    pub fn absorb_page(&mut self, base: &str, objects: &Vec<ListedObject>, prefixes: &Vec<Option<String>>)
        requires
            old(self).wf(),
        ensures
            final(self).wf(),
            final(self).markers() == old(self).markers() + page_markers(objects_view(objects@), base@),
            final(self).files() == old(self).files() + page_files(objects_view(objects@), base@),
            forall|y: Seq<char>|
                final(self).dir_names().contains(y) <==> (old(self).dir_names().contains(y)
                    || page_dir_names(opt_strings_view(prefixes@), base@).contains(y)),
    {
        let ghost m0 = pairs_view(self.markers@);
        let ghost f0 = entries_view(self.files@);
        let ghost objs = objects_view(objects@);
        let mut i: usize = 0;
        proof {
            assert(objs.take(0) =~= Seq::<ListedObjectModel>::empty());
            assert(m0 + page_markers(objs.take(0), base@) =~= m0);
            assert(f0 + page_files(objs.take(0), base@) =~= f0);
        }
        while i < objects.len()
            invariant
                i <= objects@.len(),
                objs == objects_view(objects@),
                pairs_view(self.markers@) == m0 + page_markers(objs.take(i as int), base@),
                entries_view(self.files@) == f0 + page_files(objs.take(i as int), base@),
                crate::key_set::strictly_sorted(strings_view(self.dir_names@)),
                strings_view(self.dir_names@) == old(self).dir_names(),
            decreases objects@.len() - i,
        {
            let o = &objects[i];
            let key = match &o.key {
                Some(k) => Some(k.as_str()),
                None => None,
            };
            let modified = match &o.modified {
                Some(m) => Some(m.as_str()),
                None => None,
            };
            proof {
                let t = objs.take(i + 1);
                assert(t.drop_last() =~= objs.take(i as int));
                assert(t.last() == o@);
            }
            let ghost mb = pairs_view(self.markers@);
            match dir_marker_metadata(key, base, modified) {
                Some((n, m)) => {
                    let ghost pair = (n@, m@);
                    self.markers.push((n, m));
                    proof {
                        assert(pairs_view(self.markers@) =~= mb.push(pair));
                    }
                },
                None => {},
            }
            let ghost fb = entries_view(self.files@);
            match object_name(key, base) {
                Some(name) => {
                    let e = RemoteEntry {
                        name,
                        is_dir: false,
                        size: o.size,
                        modified: clone_opt_string(&o.modified),
                    };
                    let ghost ev = e@;
                    self.files.push(e);
                    proof {
                        assert(entries_view(self.files@) =~= fb.push(ev));
                    }
                },
                None => {},
            }
            i = i + 1;
        }
        proof {
            assert(objs.take(objects@.len() as int) =~= objs);
        }
        let ghost pv = opt_strings_view(prefixes@);
        let ghost n0 = strings_view(self.dir_names@);
        let mut j: usize = 0;
        proof {
            assert(pv.take(0) =~= Seq::<Option<Seq<char>>>::empty());
        }
        while j < prefixes.len()
            invariant
                j <= prefixes@.len(),
                pv == opt_strings_view(prefixes@),
                pairs_view(self.markers@) == m0 + page_markers(objs, base@),
                entries_view(self.files@) == f0 + page_files(objs, base@),
                crate::key_set::strictly_sorted(strings_view(self.dir_names@)),
                n0 == old(self).dir_names(),
                forall|y: Seq<char>|
                    strings_view(self.dir_names@).contains(y) <==> (n0.contains(y) || page_dir_names(
                        pv.take(j as int),
                        base@,
                    ).contains(y)),
            decreases prefixes@.len() - j,
        {
            let p = match &prefixes[j] {
                Some(s) => Some(s.as_str()),
                None => None,
            };
            proof {
                let t = pv.take(j + 1);
                assert(t.drop_last() =~= pv.take(j as int));
                assert(t.last() == crate::command::types::opt_str_view(prefixes@[j as int]));
            }
            let ghost before = strings_view(self.dir_names@);
            let ghost pn0 = page_dir_names(pv.take(j as int), base@);
            assert(forall|y: Seq<char>| #[trigger] before.contains(y) <==> (n0.contains(y)
                || pn0.contains(y)));
            match prefix_name(p, base) {
                Some(n) => {
                    let ghost nv = n@;
                    crate::key_set::insert_unique(&mut self.dir_names, n);
                    proof {
                        let pn = page_dir_names(pv.take(j as int), base@);
                        assert forall|y: Seq<char>| strings_view(self.dir_names@).contains(y) <==> (
                        n0.contains(y) || page_dir_names(pv.take(j + 1), base@).contains(y)) by {
                            assert(page_dir_names(pv.take(j + 1), base@) == pn.push(nv));
                            assert(strings_view(self.dir_names@).contains(y) <==> (before.contains(y)
                                || y == nv));
                            assert(before.contains(y) <==> (n0.contains(y) || pn.contains(y)));
                            if pn.push(nv).contains(y) && y != nv {
                                let k = choose|k: int| 0 <= k < pn.push(nv).len() && pn.push(nv)[k] == y;
                                assert(pn[k] == y);
                            }
                            if pn.contains(y) {
                                let k = choose|k: int| 0 <= k < pn.len() && pn[k] == y;
                                assert(pn.push(nv)[k] == y);
                            }
                            if y == nv {
                                assert(pn.push(nv)[pn.len() as int] == y);
                            }
                        }
                    }
                },
                None => {
                    proof {
                        assert(page_dir_names(pv.take(j + 1), base@) == page_dir_names(
                            pv.take(j as int),
                            base@,
                        ));
                    }
                },
            }
            j = j + 1;
        }
        proof {
            assert(pv.take(prefixes@.len() as int) =~= pv);
        }
    }

    /// The listing: directories first, then files, each group by name.
    pub fn finish(self) -> (r: Vec<RemoteEntry>)
        ensures
            entries_sorted(entries_view(r@)),
            forall|k: (bool, Seq<char>)| #[trigger]
                group(entries_view(r@), entry_key_fn(), k) == group(
                    unsorted_entries(self.dir_names(), self.markers(), self.files()),
                    entry_key_fn(),
                    k,
                ),
    {
        merge_remote_entries(self.markers, self.dir_names, self.files)
    }
}

/// Whether a listing asks for another page: where the last one was
/// truncated, and (for completion) fewer than `max_pages` pages were read.
pub fn more_pages(truncated: Option<bool>, pages_read: usize, max_pages: Option<usize>) -> (r: bool)
    ensures
        r == (truncated == Some(true) && match max_pages {
            Some(m) => pages_read < m,
            None => true,
        }),
{
    let t = match truncated {
        Some(t) => t,
        None => false,
    };
    if !t {
        return false;
    }
    match max_pages {
        Some(m) => pages_read < m,
        None => true,
    }
}

/// The prefix that asks whether the directory `key` exists; `None` for the
/// bucket root, which is not asked about (it does not count as one).
pub fn dir_probe_prefix(key: &str) -> (r: Option<String>)
    ensures
        match r {
            Some(p) => p@ == crate::s3::keys::spec_normalize_dir_key(key@) && p@.len() > 0,
            None => crate::s3::keys::spec_normalize_dir_key(key@).len() == 0,
        },
{
    let p = crate::s3::keys::normalize_dir_key(key);
    if p.as_str().is_empty() {
        None
    } else {
        Some(p)
    }
}

/// Whether a one-key listing under a directory's prefix shows that the
/// directory exists: it holds an object or a common prefix, or counts a key.
pub fn listing_shows_dir(objects: usize, prefixes: usize, key_count: Option<i32>) -> (r: bool)
    ensures
        r == (objects > 0 || prefixes > 0 || match key_count {
            Some(n) => n > 0,
            None => false,
        }),
{
    let count = match key_count {
        Some(n) => n,
        None => 0,
    };
    objects > 0 || prefixes > 0 || count > 0
}

} // verus!
