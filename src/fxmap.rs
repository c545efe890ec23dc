use vstd::prelude::*;
use fxhash::FxHashMap;
use std::hash::Hash;
use vstd::std_specs::hash::obeys_key_model;

verus! {

#[verifier::external_type_specification]
#[verifier::external_body]
pub struct ExFxHasher(fxhash::FxHasher);

#[verifier::external_type_specification]
#[verifier::external_body]
#[verifier::reject_recursive_types(H)]
pub struct ExBuildHasherDefault<H>(std::hash::BuildHasherDefault<H>);

/// Relies on `FxHashMap::default` (std's `HashMap` with fxhash's `FxBuildHasher`):
/// a new map is empty.
#[verifier::external_body]
pub(crate) fn fx_new<K, V>() -> (r: FxHashMap<K, V>)
    ensures
        r@.dom() == Set::<K>::empty(),
{
    FxHashMap::default()
}

/// Relies on `HashMap::get` under fxhash's hasher, which hashes deterministically:
/// for keys whose `Eq` and `Hash` agree with equality, the lookup finds what the map holds.
#[verifier::external_body]
pub(crate) fn fx_get<K: Eq + Hash, V: Copy>(m: &FxHashMap<K, V>, k: &K) -> (r: Option<V>)
    ensures
        obeys_key_model::<K>() ==> r == (if m@.contains_key(*k) {
            Some(m@[*k])
        } else {
            None
        }),
{
    m.get(k).copied()
}

/// Relies on `HashMap::insert` under fxhash's hasher: for keys whose `Eq` and `Hash`
/// agree with equality, the map then sends `k` to `v` and is otherwise unchanged.
#[verifier::external_body]
pub(crate) fn fx_insert<K: Eq + Hash, V>(m: &mut FxHashMap<K, V>, k: K, v: V)
    ensures
        obeys_key_model::<K>() ==> final(m)@ == old(m)@.insert(k, v),
{
    m.insert(k, v);
}

} // verus!
