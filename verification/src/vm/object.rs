use indexmap::IndexMap;
use vstd::prelude::*;

use super::values::Value;

verus! {

#[verifier::external_type_specification]
#[verifier::external_body]
#[verifier::reject_recursive_types(K)]
#[verifier::reject_recursive_types(V)]
#[verifier::reject_recursive_types(S)]
pub struct ExIndexMap<K, V, S>(IndexMap<K, V, S>);

/// The entries of an object's map, in insertion order: each key with its value.
pub uninterp spec fn obj_entries(m: IndexMap<Vec<u16>, Value>) -> Seq<(Seq<u16>, Value)>;

/// Whether `key` is the key of some entry.
pub open spec fn has_key(entries: Seq<(Seq<u16>, Value)>, key: Seq<u16>) -> bool {
    exists|i: int| 0 <= i < entries.len() && (#[trigger] entries[i]).0 == key
}

/// Whether no two entries have the same key.
pub open spec fn keys_unique(entries: Seq<(Seq<u16>, Value)>) -> bool {
    forall|i: int, j: int|
        0 <= i < entries.len() && 0 <= j < entries.len() && i != j ==> (#[trigger] entries[i]).0
            != (#[trigger] entries[j]).0
}

/// Calls `IndexMap::with_capacity`: a new map has no entries.
#[verifier::external_body]
pub(crate) fn obj_map_new(capacity: usize) -> (r: IndexMap<Vec<u16>, Value>)
    ensures
        obj_entries(r) == Seq::<(Seq<u16>, Value)>::empty(),
{
    IndexMap::with_capacity(capacity)
}

/// Calls `IndexMap::get`: the value of the entry with the given key, if there is one.
#[verifier::external_body]
pub(crate) fn obj_map_get<'a>(m: &'a IndexMap<Vec<u16>, Value>, key: &[u16]) -> (r: Option<&'a Value>)
    ensures
        r is None <==> !has_key(obj_entries(*m), key@),
        r matches Some(v) ==> exists|i: int|
            0 <= i < obj_entries(*m).len() && #[trigger] obj_entries(*m)[i] == (key@, *v),
{
    m.get(key)
}

/// Calls `IndexMap::insert`: an entry with an equal key keeps its place and takes the new
/// value; otherwise the entry goes last.
#[verifier::external_body]
pub(crate) fn obj_map_insert(m: &mut IndexMap<Vec<u16>, Value>, key: Vec<u16>, value: Value)
    ensures
        has_key(obj_entries(*old(m)), key@) ==> exists|i: int|
            0 <= i < obj_entries(*old(m)).len() && (#[trigger] obj_entries(*old(m))[i]).0 == key@
                && obj_entries(*final(m)) == obj_entries(*old(m)).update(i, (key@, value)),
        !has_key(obj_entries(*old(m)), key@) ==> obj_entries(*final(m)) == obj_entries(
            *old(m),
        ).push((key@, value)),
{
    m.insert(key, value);
}

} // verus!
