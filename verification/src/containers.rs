//! The hash maps and sets of `cairo_lang_utils`, with integer keys.
use cairo_lang_utils::ordered_hash_map::OrderedHashMap;
use cairo_lang_utils::unordered_hash_map::UnorderedHashMap;
use cairo_lang_utils::unordered_hash_set::UnorderedHashSet;
use vstd::prelude::*;

use crate::constant::value::ConstValue;
use crate::semantic::ids::VarKey;

verus! {

#[verifier::external_type_specification]
#[verifier::external_body]
#[verifier::reject_recursive_types(Key)]
#[verifier::reject_recursive_types(Value)]
#[verifier::reject_recursive_types(BH)]
pub struct ExOrderedHashMap<Key, Value, BH>(OrderedHashMap<Key, Value, BH>);

#[verifier::external_type_specification]
#[verifier::external_body]
#[verifier::reject_recursive_types(Key)]
#[verifier::reject_recursive_types(Value)]
#[verifier::reject_recursive_types(BH)]
pub struct ExUnorderedHashMap<Key, Value, BH>(UnorderedHashMap<Key, Value, BH>);

#[verifier::external_type_specification]
#[verifier::external_body]
#[verifier::reject_recursive_types(Key)]
#[verifier::reject_recursive_types(BH)]
pub struct ExUnorderedHashSet<Key, BH>(UnorderedHashSet<Key, BH>);

/// The values of variables.
pub type Bindings = OrderedHashMap<VarKey, ConstValue>;

/// A set of ids.
pub type IdSet = UnorderedHashSet<u64>;

/// A flag for each of some ids.
pub type IdFlags = UnorderedHashMap<u64, bool>;

/// A place for each of some ids.
pub type IdPlaces = UnorderedHashMap<u64, usize>;

/// A size for each of some types.
pub type TypeSizes = UnorderedHashMap<u64, i16>;

/// The entries of a map of variables, without their order.
pub uninterp spec fn bindings(map: Bindings) -> Map<VarKey, ConstValue>;

/// The elements of a set of ids.
pub uninterp spec fn ids(set: IdSet) -> Set<u64>;

/// The entries of a map from ids to flags.
pub uninterp spec fn flags(map: IdFlags) -> Map<u64, bool>;

/// The entries of a map from ids to places.
pub uninterp spec fn places(map: IdPlaces) -> Map<u64, usize>;

/// The entries of a map from types to sizes.
pub uninterp spec fn sizes(map: TypeSizes) -> Map<u64, i16>;

/// Calls `OrderedHashMap::default`: a map without entries.
#[verifier::external_body]
pub(crate) fn new_bindings() -> (r: Bindings)
    ensures
        bindings(r) == (Map::<VarKey, ConstValue>::empty()),
{
    OrderedHashMap::default()
}

/// Calls `OrderedHashMap::get`: the value of the key, if it has one.
#[verifier::external_body]
pub(crate) fn get_binding(map: &Bindings, key: VarKey) -> (r: Option<&ConstValue>)
    ensures
        r == (if bindings(*map).contains_key(key) { Some(&bindings(*map)[key]) } else { None }),
{
    map.get(&key)
}

/// Calls `OrderedHashMap::insert`: the key has the value from then on.
#[verifier::external_body]
pub(crate) fn set_binding(map: &mut Bindings, key: VarKey, value: ConstValue)
    ensures
        bindings(*final(map)) == bindings(*old(map)).insert(key, value),
{
    map.insert(key, value);
}

/// Calls `UnorderedHashSet::from_iter`: the set of the given elements.
#[verifier::external_body]
pub(crate) fn id_set(elements: Vec<u64>) -> (r: IdSet)
    ensures
        ids(r) == elements@.to_set(),
{
    FromIterator::from_iter(elements)
}

/// Calls `UnorderedHashSet::contains`.
#[verifier::external_body]
pub(crate) fn has_id(set: &IdSet, id: u64) -> (r: bool)
    ensures
        r == ids(*set).contains(id),
{
    set.contains(&id)
}

/// Calls `UnorderedHashMap::default`: a map without entries.
#[verifier::external_body]
pub(crate) fn new_flags() -> (r: IdFlags)
    ensures
        flags(r) == (Map::<u64, bool>::empty()),
{
    UnorderedHashMap::default()
}

/// Calls `UnorderedHashMap::insert`: the key has the value from then on.
#[verifier::external_body]
pub(crate) fn set_flag(map: &mut IdFlags, id: u64, flag: bool)
    ensures
        flags(*final(map)) == flags(*old(map)).insert(id, flag),
{
    map.insert(id, flag);
}

/// Calls `UnorderedHashMap::get`: the value of the key, if it has one.
#[verifier::external_body]
pub(crate) fn get_flag(map: &IdFlags, id: u64) -> (r: Option<bool>)
    ensures
        r == (if flags(*map).contains_key(id) { Some(flags(*map)[id]) } else { None }),
{
    map.get(&id).copied()
}

/// Calls `UnorderedHashMap::default`: a map without entries.
#[verifier::external_body]
pub(crate) fn new_places() -> (r: IdPlaces)
    ensures
        places(r) == (Map::<u64, usize>::empty()),
{
    UnorderedHashMap::default()
}

/// Calls `UnorderedHashMap::insert`: the key has the value from then on.
#[verifier::external_body]
pub(crate) fn set_place(map: &mut IdPlaces, id: u64, place: usize)
    ensures
        places(*final(map)) == places(*old(map)).insert(id, place),
{
    map.insert(id, place);
}

/// Calls `UnorderedHashMap::get`: the value of the key, if it has one.
#[verifier::external_body]
pub(crate) fn get_place(map: &IdPlaces, id: u64) -> (r: Option<usize>)
    ensures
        r == (if places(*map).contains_key(id) { Some(places(*map)[id]) } else { None }),
{
    map.get(&id).copied()
}

/// Calls `UnorderedHashMap::default`: a map without entries.
#[verifier::external_body]
pub(crate) fn new_sizes() -> (r: TypeSizes)
    ensures
        sizes(r) == (Map::<u64, i16>::empty()),
{
    UnorderedHashMap::default()
}

/// Calls `UnorderedHashMap::insert`: the key has the value from then on.
#[verifier::external_body]
pub(crate) fn set_size(map: &mut TypeSizes, id: u64, size: i16)
    ensures
        sizes(*final(map)) == sizes(*old(map)).insert(id, size),
{
    map.insert(id, size);
}

} // verus!
