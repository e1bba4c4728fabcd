//! Concurrent maps from names and addresses to slot numbers.

use dashmap::DashMap;
use vstd::prelude::*;

verus! {

/// `dashmap::DashMap`.
#[verifier::external_type_specification]
#[verifier::external_body]
#[verifier::reject_recursive_types(K)]
#[verifier::reject_recursive_types(V)]
#[verifier::reject_recursive_types(S)]
pub struct ExDashMap<K, V, S>(dashmap::DashMap<K, V, S>);

/// The slot that each name in the map has.
pub uninterp spec fn slots(index: DashMap<String, usize>) -> Map<Seq<char>, usize>;

/// `DashMap::new` makes an empty map.
#[verifier::external_body]
pub(crate) fn index_new() -> (made: DashMap<String, usize>)
    ensures
        slots(made) =~= Map::empty(),
{
    DashMap::new()
}

/// `DashMap::get` finds the value that a key has, if it has one.
#[verifier::external_body]
pub(crate) fn index_get(index: &DashMap<String, usize>, name: &str) -> (slot: Option<usize>)
    ensures
        slot == if slots(*index).contains_key(name@) {
            Some(slots(*index)[name@])
        } else {
            None
        },
{
    index.get(name).map(|entry| *entry.value())
}

/// `DashMap::insert` gives a key a value, in place of the one that it had.
#[verifier::external_body]
pub(crate) fn index_insert(index: &mut DashMap<String, usize>, name: &str, slot: usize)
    ensures
        slots(*final(index)) == slots(*old(index)).insert(name@, slot),
{
    index.insert(name.to_string(), slot);
}

/// `DashMap::remove` takes a key and its value out of the map.
#[verifier::external_body]
pub(crate) fn index_remove(index: &mut DashMap<String, usize>, name: &str)
    ensures
        slots(*final(index)) == slots(*old(index)).remove(name@),
{
    index.remove(name);
}

/// An address as a key: whether it is IPv6, its bits, port, flow information and scope.
pub type AddressKey = (bool, u128, u16, u32, u32);

/// The slot that each address in the map has.
pub uninterp spec fn address_slots(index: DashMap<AddressKey, usize>) -> Map<AddressKey, usize>;

/// `DashMap::new` makes an empty map.
#[verifier::external_body]
pub(crate) fn address_index_new() -> (made: DashMap<AddressKey, usize>)
    ensures
        address_slots(made) =~= Map::empty(),
{
    DashMap::new()
}

/// `DashMap::get` finds the value that a key has, if it has one.
#[verifier::external_body]
pub(crate) fn address_index_get(index: &DashMap<AddressKey, usize>, key: AddressKey) -> (slot:
    Option<usize>)
    ensures
        slot == if address_slots(*index).contains_key(key) {
            Some(address_slots(*index)[key])
        } else {
            None
        },
{
    index.get(&key).map(|entry| *entry.value())
}

/// `DashMap::insert` gives a key a value, in place of the one that it had.
#[verifier::external_body]
pub(crate) fn address_index_insert(
    index: &mut DashMap<AddressKey, usize>,
    key: AddressKey,
    slot: usize,
)
    ensures
        address_slots(*final(index)) == address_slots(*old(index)).insert(key, slot),
{
    index.insert(key, slot);
}

} // verus!
