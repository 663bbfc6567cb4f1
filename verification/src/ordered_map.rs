//! The insertion-ordered map of the `indexmap` crate, as the library uses it:
//! group ids mapped to text.
use indexmap::IndexMap;
use vstd::prelude::*;

verus! {

/// `indexmap::IndexMap`, carried through verified code.
#[verifier::external_type_specification]
#[verifier::external_body]
#[verifier::reject_recursive_types(K)]
#[verifier::reject_recursive_types(V)]
#[verifier::reject_recursive_types(S)]
pub struct ExIndexMap<K, V, S>(IndexMap<K, V, S>);

/// The entries of an `IndexMap<usize, String>`, in the map's order.
pub uninterp spec fn index_map_entries(m: IndexMap<usize, String>) -> Seq<(usize, Seq<char>)>;

/// The position of the first entry with key `k`, or -1.
pub open spec fn entry_index(e: Seq<(usize, Seq<char>)>, k: usize) -> int
    decreases e.len(),
{
    if e.len() == 0 {
        -1
    } else if entry_index(e.drop_last(), k) >= 0 {
        entry_index(e.drop_last(), k)
    } else if e.last().0 == k {
        e.len() - 1
    } else {
        -1
    }
}

/// The entries after `insert(k, v)`: an existing key keeps its place and takes
/// the new value; a new key goes last.
pub open spec fn entries_insert(e: Seq<(usize, Seq<char>)>, k: usize, v: Seq<char>) -> Seq<(usize, Seq<char>)> {
    let i = entry_index(e, k);
    if i >= 0 { e.update(i, (k, v)) } else { e.push((k, v)) }
}

/// `IndexMap::new`: a map with no entries.
#[verifier::external_body]
pub(crate) fn index_map_new() -> (m: IndexMap<usize, String>)
    ensures
        index_map_entries(m) == Seq::<(usize, Seq<char>)>::empty(),
{
    IndexMap::new()
}

/// `IndexMap::insert`: as its documentation says, an equivalent key already in
/// the map keeps its place and takes the new value; otherwise the pair goes last.
#[verifier::external_body]
pub(crate) fn index_map_insert(m: &mut IndexMap<usize, String>, k: usize, v: String)
    ensures
        index_map_entries(*final(m)) == entries_insert(index_map_entries(*old(m)), k, v@),
{
    m.insert(k, v);
}

/// `IndexMap::get`: the value of the entry with key `k`, if there is one.
#[verifier::external_body]
pub(crate) fn index_map_get(m: &IndexMap<usize, String>, k: usize) -> (r: Option<String>)
    ensures
        entry_index(index_map_entries(*m), k) < 0 ==> r is None,
        entry_index(index_map_entries(*m), k) >= 0 ==> r is Some && r->0@ == index_map_entries(*m)[entry_index(index_map_entries(*m), k)].1,
{
    m.get(&k).cloned()
}

/// `IndexMap::values`: the values in the map's order.
#[verifier::external_body]
pub(crate) fn index_map_values(m: &IndexMap<usize, String>) -> (r: Vec<String>)
    ensures
        r.deep_view() == index_map_entries(*m).map_values(|e: (usize, Seq<char>)| e.1),
{
    m.values().cloned().collect()
}

} // verus!
