//! Ordered string-to-string maps (header sets, cookie sets, query parameters),
//! held in an `IndexMap` and modelled as the sequence of their entries.
use vstd::prelude::*;

use foldhash::fast::RandomState;
use indexmap::IndexMap;

use crate::headers::{lower_of, same_name};

verus! {

#[verifier::external_type_specification]
#[verifier::external_body]
pub struct ExRandomState(RandomState);

#[verifier::external_type_specification]
#[verifier::external_body]
#[verifier::reject_recursive_types(K)]
#[verifier::reject_recursive_types(V)]
#[verifier::reject_recursive_types(S)]
pub struct ExIndexMap<K, V, S>(IndexMap<K, V, S>);

/// An insertion-ordered map from strings to strings.
pub type IndexMapSSR = IndexMap<String, String, RandomState>;

/// An entry of an ordered map, as its key's and value's characters.
pub type Entry = (Seq<char>, Seq<char>);

/// The entries of an ordered map, in iteration order.
pub uninterp spec fn index_map_entries(m: IndexMapSSR) -> Seq<Entry>;

/// No two entries share a key.
pub open spec fn keys_distinct(s: Seq<Entry>) -> bool {
    forall|i: int, j: int| 0 <= i < j < s.len() ==> s[i].0 != s[j].0
}

pub open spec fn has_key(s: Seq<Entry>, k: Seq<char>) -> bool {
    exists|i: int| 0 <= i < s.len() && s[i].0 == k
}

/// What inserting `(k, v)` does to the entries: an existing key keeps its
/// place and takes the new value; a new key goes last.
pub open spec fn entry_inserted(s: Seq<Entry>, k: Seq<char>, v: Seq<char>) -> Seq<Entry> {
    if has_key(s, k) {
        s.update(choose|i: int| 0 <= i < s.len() && s[i].0 == k, (k, v))
    } else {
        s.push((k, v))
    }
}

/// The entries after inserting each entry of `t`, in order, into `s`.
pub open spec fn entries_merged(s: Seq<Entry>, t: Seq<Entry>) -> Seq<Entry>
    decreases t.len(),
{
    if t.len() == 0 {
        s
    } else {
        let last = t[t.len() - 1];
        entry_inserted(entries_merged(s, t.drop_last()), last.0, last.1)
    }
}

/// The first entry whose key equals `k` ignoring case, or -1.
pub open spec fn first_same_name(s: Seq<Entry>, k: Seq<char>) -> int
    decreases s.len(),
{
    if s.len() == 0 {
        -1
    } else {
        let p = first_same_name(s.drop_last(), k);
        if p >= 0 {
            p
        } else if lower_of(s[s.len() - 1].0) == lower_of(k) {
            s.len() - 1
        } else {
            -1
        }
    }
}

/// What a header update does with `(k, v)`: a key equal to `k` ignoring
/// case keeps its place and spelling and takes the new value; otherwise the
/// entry goes last.
pub open spec fn header_set(s: Seq<Entry>, k: Seq<char>, v: Seq<char>) -> Seq<Entry> {
    let i = first_same_name(s, k);
    if i >= 0 {
        s.update(i, (s[i].0, v))
    } else {
        s.push((k, v))
    }
}

/// The header entries after setting each entry of `t`, in order, into `s`.
pub open spec fn headers_merged(s: Seq<Entry>, t: Seq<Entry>) -> Seq<Entry>
    decreases t.len(),
{
    if t.len() == 0 {
        s
    } else {
        let last = t[t.len() - 1];
        header_set(headers_merged(s, t.drop_last()), last.0, last.1)
    }
}

proof fn lemma_first_same_name_range(s: Seq<Entry>, k: Seq<char>)
    ensures
        -1 <= first_same_name(s, k) < s.len(),
        first_same_name(s, k) >= 0 ==> lower_of(s[first_same_name(s, k)].0) == lower_of(k),
        first_same_name(s, k) == -1 ==> forall|i: int|
            0 <= i < s.len() ==> lower_of(#[trigger] s[i].0) != lower_of(k),
    decreases s.len(),
{
    if s.len() > 0 {
        lemma_first_same_name_range(s.drop_last(), k);
        let p = s.drop_last();
        assert forall|i: int| 0 <= i < p.len() implies p[i] == s[i] by {}
    }
}

/// Relies on `IndexMap::with_capacity_and_hasher` (with a fresh foldhash
/// `RandomState`): the map it makes is empty.
#[verifier::external_body]
pub(crate) fn new_index_map() -> (r: IndexMapSSR)
    ensures
        index_map_entries(r) == Seq::<Entry>::empty(),
{
    IndexMap::with_capacity_and_hasher(10, RandomState::default())
}

/// Relies on `IndexMap::insert`: an existing key keeps its place and takes
/// the new value, a new key is appended last.
#[verifier::external_body]
pub(crate) fn index_map_insert(m: &mut IndexMapSSR, k: String, v: String)
    ensures
        index_map_entries(*final(m)) == entry_inserted(index_map_entries(*old(m)), k@, v@),
{
    m.insert(k, v);
}

/// Relies on `IndexMap::iter`: it yields every entry once, in the map's
/// order, and the keys of a map are distinct.
#[verifier::external_body]
pub(crate) fn index_map_entry_list(m: &IndexMapSSR) -> (r: Vec<(String, String)>)
    ensures
        r.deep_view() == index_map_entries(*m),
        keys_distinct(r.deep_view()),
{
    m.iter().map(|(k, v)| (k.clone(), v.clone())).collect()
}

/// Relies on `IndexMap`'s `IndexMut<usize>`: the value at a position is
/// replaced, keys and order stay (it panics only out of range).
#[verifier::external_body]
pub(crate) fn index_map_set_value(m: &mut IndexMapSSR, i: usize, v: String)
    requires
        i < index_map_entries(*old(m)).len(),
    ensures
        index_map_entries(*final(m)) == index_map_entries(*old(m)).update(
            i as int,
            (index_map_entries(*old(m))[i as int].0, v@),
        ),
{
    m[i] = v;
}

/// Relies on `IndexMap`'s `Clone`: the copy holds the same entries in the
/// same order.
#[verifier::external_body]
pub(crate) fn index_map_clone(m: &IndexMapSSR) -> (r: IndexMapSSR)
    ensures
        index_map_entries(r) == index_map_entries(*m),
{
    m.clone()
}

/// Relies on `IndexMap::len`: the number of entries.
#[verifier::external_body]
pub(crate) fn index_map_len(m: &IndexMapSSR) -> (r: usize)
    ensures
        r == index_map_entries(*m).len(),
{
    m.len()
}

fn find_same_name(s: &Vec<(String, String)>, k: &String) -> (r: Option<usize>)
    ensures
        match r {
            Some(i) => first_same_name(s.deep_view(), k@) == i as int,
            None => first_same_name(s.deep_view(), k@) == -1,
        },
{
    let mut i: usize = 0;
    while i < s.len()
        invariant
            0 <= i <= s.len(),
            first_same_name(s.deep_view().take(i as int), k@) == -1,
        decreases s.len() - i,
    {
        proof {
            assert(s.deep_view().take(i as int + 1).drop_last() =~= s.deep_view().take(i as int));
        }
        if same_name(&s[i].0, k) {
            proof {
                lemma_first_same_name_prefix(s.deep_view(), k@, i as int + 1, s.len() as int);
                assert(s.deep_view().take(s.len() as int) =~= s.deep_view());
            }
            return Some(i);
        }
        i = i + 1;
    }
    proof {
        assert(s.deep_view().take(s.len() as int) =~= s.deep_view());
    }
    None
}

proof fn lemma_first_same_name_prefix(s: Seq<Entry>, k: Seq<char>, n: int, m: int)
    requires
        0 < n <= m <= s.len(),
        first_same_name(s.take(n), k) >= 0,
    ensures
        first_same_name(s.take(m), k) == first_same_name(s.take(n), k),
    decreases m - n,
{
    if m > n {
        lemma_first_same_name_prefix(s, k, n, m - 1);
        assert(s.take(m).drop_last() =~= s.take(m - 1));
    }
}

/// Sets one header: a key equal to `k` ignoring case takes the value in its
/// place, else the entry is appended.
fn header_set_one(m: &mut IndexMapSSR, k: String, v: String)
    ensures
        index_map_entries(*final(m)) == header_set(index_map_entries(*old(m)), k@, v@),
{
    let current = index_map_entry_list(m);
    proof {
        lemma_first_same_name_range(current.deep_view(), k@);
    }
    match find_same_name(&current, &k) {
        Some(i) => index_map_set_value(m, i, v),
        None => {
            proof {
                let s = index_map_entries(*m);
                if has_key(s, k@) {
                    let j = choose|j: int| 0 <= j < s.len() && s[j].0 == k@;
                    assert(lower_of(s[j].0) == lower_of(k@));
                }
            }
            index_map_insert(m, k, v);
        },
    }
}

/// Sets every entry of `update` into `existing`, in `update`'s order: a key
/// already present (ignoring case) keeps its place and spelling and takes
/// the new value, a new key is appended.
pub fn merge_into(existing: &mut IndexMapSSR, update: &IndexMapSSR)
    ensures
        index_map_entries(*final(existing)) == headers_merged(
            index_map_entries(*old(existing)),
            index_map_entries(*update),
        ),
{
    let items = index_map_entry_list(update);
    let ghost start = index_map_entries(*existing);
    let mut i: usize = 0;
    while i < items.len()
        invariant
            0 <= i <= items.len(),
            items.deep_view() == index_map_entries(*update),
            index_map_entries(*existing) == headers_merged(start, items.deep_view().take(i as int)),
        decreases items.len() - i,
    {
        let k = items[i].0.clone();
        let v = items[i].1.clone();
        header_set_one(existing, k, v);
        proof {
            let t = items.deep_view().take(i as int + 1);
            assert(t.drop_last() =~= items.deep_view().take(i as int));
            assert(t[t.len() - 1] == (k@, v@));
        }
        i = i + 1;
    }
    proof {
        assert(items.deep_view().take(items.len() as int) =~= items.deep_view());
    }
}

/// A header set after a bulk update: no update leaves it as it is; with no
/// set yet the update becomes the set; otherwise the update is merged in,
/// keys compared without regard to case.
pub fn headers_updated(current: Option<IndexMapSSR>, update: Option<IndexMapSSR>) -> (r: Option<
    IndexMapSSR,
>)
    ensures
        update.is_none() ==> r == current,
        update.is_some() && current.is_none() ==> r == update,
        update.is_some() && current.is_some() ==> r.is_some() && index_map_entries(r.unwrap())
            == headers_merged(
            index_map_entries(current.unwrap()),
            index_map_entries(update.unwrap()),
        ),
{
    match update {
        None => current,
        Some(new_headers) => match current {
            None => Some(new_headers),
            Some(existing) => {
                let mut merged = existing;
                merge_into(&mut merged, &new_headers);
                Some(merged)
            },
        },
    }
}

} // verus!
