//! Maps from handles to values, hashed by `rustc_hash`.
use crate::entity::Handle;
use rustc_hash::FxHashMap;
use vstd::prelude::*;

verus! {

/// The hasher of `rustc_hash`'s maps.
#[verifier::external_type_specification]
#[verifier::external_body]
pub struct ExFxBuildHasher(rustc_hash::FxBuildHasher);

/// A map without entries.
pub open spec fn no_entries<V>() -> Map<Handle, V> {
    Map::empty()
}

/// `FxHashMap::default`: a map without entries.
#[verifier::external_body]
pub(crate) fn map_new<V>() -> (r: FxHashMap<Handle, V>)
    ensures
        r@ == no_entries::<V>(),
{
    FxHashMap::default()
}

/// `FxHashMap::get`: the value under a handle, where there is one.
#[verifier::external_body]
pub(crate) fn map_get<V>(m: &FxHashMap<Handle, V>, h: Handle) -> (r: Option<&V>)
    ensures
        match r {
            Some(v) => m@.contains_key(h) && *v == m@[h],
            None => !m@.contains_key(h),
        },
{
    m.get(&h)
}

/// `FxHashMap::insert`: puts a value under a handle, in place of any other.
#[verifier::external_body]
pub(crate) fn map_insert<V>(m: &mut FxHashMap<Handle, V>, h: Handle, v: V)
    ensures
        final(m)@ == old(m)@.insert(h, v),
{
    m.insert(h, v);
}

/// `FxHashMap::len`: the number of entries.
#[verifier::external_body]
pub(crate) fn map_len<V>(m: &FxHashMap<Handle, V>) -> (r: usize)
    ensures
        r == m@.len(),
{
    m.len()
}

/// `FxHashMap::remove`: drops a handle and its value.
#[verifier::external_body]
pub(crate) fn map_remove<V>(m: &mut FxHashMap<Handle, V>, h: Handle)
    ensures
        final(m)@ == old(m)@.remove(h),
{
    m.remove(&h);
}

} // verus!
