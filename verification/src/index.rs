//! The map from tile keys to batch numbers, kept in a `vec_map::VecMap`.
//!
//! Nothing in this file is proved: each contract states what the source of
//! `vec_map` shows of the method that the function calls.

use vstd::prelude::*;
use vec_map::VecMap;

verus! {

/// `vec_map::VecMap`: a map with small integer keys, kept as a vector of
/// optional values. Its contents are not visible here.
#[verifier::external_type_specification]
#[verifier::external_body]
#[verifier::reject_recursive_types(V)]
pub struct ExVecMap<V>(vec_map::VecMap<V>);

/// The keys that the map holds, each with the value stored under it.
pub uninterp spec fn entries(m: VecMap<usize>) -> Map<usize, usize>;

/// `VecMap::new`: the map it returns holds no key.
#[verifier::external_body]
pub(crate) fn index_new() -> (m: VecMap<usize>)
    ensures
        forall|key: usize| !entries(m).contains_key(key),
{
    VecMap::new()
}

/// `VecMap::get`: it returns the value stored under `key`, or `None` where
/// the map does not hold the key.
#[verifier::external_body]
pub(crate) fn index_get(m: &VecMap<usize>, key: usize) -> (r: Option<usize>)
    ensures
        r == if entries(*m).contains_key(key) {
            Some(entries(*m)[key])
        } else {
            None
        },
{
    m.get(key).copied()
}

/// `VecMap::insert`: afterwards the map holds `value` under `key` and is
/// otherwise as before; it returns what was stored under `key` before. The
/// map keeps a vector of at least `key + 1` optional values of sixteen bytes,
/// which may grow to twice that, and must not outgrow what a vector can hold.
#[verifier::external_body]
pub(crate) fn index_insert(m: &mut VecMap<usize>, key: usize, value: usize) -> (was: Option<usize>)
    requires
        key < isize::MAX / 32,
    ensures
        entries(*final(m)) == entries(*old(m)).insert(key, value),
        was == if entries(*old(m)).contains_key(key) {
            Some(entries(*old(m))[key])
        } else {
            None
        },
{
    m.insert(key, value)
}

} // verus!
