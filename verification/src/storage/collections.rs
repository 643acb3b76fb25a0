//! The insertion-ordered collections of `indexmap` that the storage services are built on.
//!
//! Each collection is opaque to the verifier. A spec function names what it holds, and the
//! functions of this module state what each method does to those contents.
use indexmap::{IndexMap, IndexSet};
use vstd::prelude::*;

verus! {

/// A transmission ID: its kind, the two halves of its ID, and its checksum.
pub type TransmissionID = (u8, u128, u128, u128);

/// A field element, as the two halves of its canonical representation.
pub type Field = (u128, u128);

/// The serialized form of a transmission.
pub type Transmission = Vec<u8>;

/// The map of transmission IDs to the transmission and the certificates that refer to it.
pub type TransmissionMap = IndexMap<TransmissionID, (Transmission, IndexSet<Field>)>;

/// The map of aborted transmission IDs to the certificates that refer to them.
pub type AbortedMap = IndexMap<TransmissionID, IndexSet<Field>>;

/// The map of transmission IDs to the transmissions that a caller provides.
pub type ProvidedMap = IndexMap<TransmissionID, Transmission>;

#[verifier::external_type_specification]
#[verifier::external_body]
#[verifier::reject_recursive_types(K)]
#[verifier::reject_recursive_types(V)]
#[verifier::reject_recursive_types(S)]
pub struct ExIndexMap<K, V, S>(indexmap::IndexMap<K, V, S>);

#[verifier::external_type_specification]
#[verifier::external_body]
#[verifier::reject_recursive_types(T)]
#[verifier::reject_recursive_types(S)]
pub struct ExIndexSet<T, S>(indexmap::IndexSet<T, S>);

/// The certificate IDs that a set holds.
pub uninterp spec fn certificates(set: IndexSet<Field>) -> Set<Field>;

/// The transmission IDs that a set holds, in the order in which they were inserted.
pub uninterp spec fn listed(set: IndexSet<TransmissionID>) -> Seq<TransmissionID>;

/// The transmissions that a map holds, each with the certificates that refer to it.
pub uninterp spec fn stored(map: TransmissionMap) -> Map<TransmissionID, (Seq<u8>, Set<Field>)>;

/// The aborted transmission IDs that a map holds, each with the certificates that refer to it.
pub uninterp spec fn marked(map: AbortedMap) -> Map<TransmissionID, Set<Field>>;

/// The transmissions that a caller provides, by their IDs.
pub uninterp spec fn provided(map: ProvidedMap) -> Map<TransmissionID, Seq<u8>>;

/// `IndexSet::new`: an empty set of certificates.
#[verifier::external_body]
pub(crate) fn certificate_set_new() -> (set: IndexSet<Field>)
    ensures
        certificates(set) == Set::<Field>::empty(),
{
    IndexSet::new()
}

/// `IndexSet::insert`: the value is in the set afterwards, and nothing else changes.
#[verifier::external_body]
pub(crate) fn certificate_set_insert(set: &mut IndexSet<Field>, value: Field)
    ensures
        certificates(*final(set)) == certificates(*old(set)).insert(value),
{
    set.insert(value);
}

/// `IndexSet::swap_remove`: the value is not in the set afterwards, and nothing else leaves it.
/// The order of the remaining values is left unsaid.
#[verifier::external_body]
pub(crate) fn certificate_set_swap_remove(set: &mut IndexSet<Field>, value: &Field)
    ensures
        certificates(*final(set)) == certificates(*old(set)).remove(*value),
{
    set.swap_remove(value);
}

/// `IndexSet::is_empty`: whether the set holds no value.
#[verifier::external_body]
pub(crate) fn certificate_set_is_empty(set: &IndexSet<Field>) -> (empty: bool)
    ensures
        empty == (certificates(*set) == Set::<Field>::empty()),
{
    set.is_empty()
}

/// `IndexSet::iter`: the values of the set in insertion order, none of them twice.
#[verifier::external_body]
pub(crate) fn id_set_iter(set: &IndexSet<TransmissionID>) -> (ids: Vec<TransmissionID>)
    ensures
        ids@ == listed(*set),
        ids@.no_duplicates(),
{
    set.iter().copied().collect()
}

/// `IndexSet::contains`: whether the set holds the value.
#[verifier::external_body]
pub(crate) fn id_set_contains(set: &IndexSet<TransmissionID>, id: &TransmissionID) -> (found: bool)
    ensures
        found == listed(*set).contains(*id),
{
    set.contains(id)
}

/// `IndexMap::new`: an empty map of transmissions.
#[verifier::external_body]
pub(crate) fn transmission_map_new() -> (map: TransmissionMap)
    ensures
        stored(map).dom() == Set::<TransmissionID>::empty(),
{
    IndexMap::new()
}

/// `IndexMap::contains_key`: whether the map holds an entry for the key.
#[verifier::external_body]
pub(crate) fn transmission_map_contains_key(map: &TransmissionMap, id: &TransmissionID) -> (found:
    bool)
    ensures
        found == stored(*map).contains_key(*id),
{
    map.contains_key(id)
}

/// `IndexMap::get`: the entry of the key, if there is one.
#[verifier::external_body]
pub(crate) fn transmission_map_get<'a>(map: &'a TransmissionMap, id: &TransmissionID) -> (entry:
    Option<&'a (Transmission, IndexSet<Field>)>)
    ensures
        match entry {
            Some(entry) => stored(*map).contains_key(*id) && stored(*map)[*id] == (
                entry.0@,
                certificates(entry.1),
            ),
            None => !stored(*map).contains_key(*id),
        },
{
    map.get(id)
}

/// `IndexMap::get_mut`: the entry of the key, if there is one. What is written to it is what the
/// map holds for the key afterwards, and no other entry changes.
#[verifier::external_body]
pub(crate) fn transmission_map_get_mut<'a>(
    map: &'a mut TransmissionMap,
    id: &TransmissionID,
) -> (entry: Option<&'a mut (Transmission, IndexSet<Field>)>)
    ensures
        match entry {
            Some(entry) => {
                &&& stored(*old(map)).contains_key(*id)
                &&& stored(*old(map))[*id] == ((*entry).0@, certificates((*entry).1))
                &&& stored(*final(map)) == stored(*old(map)).insert(
                    *id,
                    ((*final(entry)).0@, certificates((*final(entry)).1)),
                )
            },
            None => {
                &&& !stored(*old(map)).contains_key(*id)
                &&& stored(*final(map)) == stored(*old(map))
            },
        },
{
    map.get_mut(id)
}

/// `IndexMap::insert`: the key maps to the value afterwards, and no other entry changes.
#[verifier::external_body]
pub(crate) fn transmission_map_insert(
    map: &mut TransmissionMap,
    id: TransmissionID,
    transmission: Transmission,
    certificate_ids: IndexSet<Field>,
)
    ensures
        stored(*final(map)) == stored(*old(map)).insert(
            id,
            (transmission@, certificates(certificate_ids)),
        ),
{
    map.insert(id, (transmission, certificate_ids));
}

/// `IndexMap::shift_remove`: the key has no entry afterwards, and no other entry changes.
#[verifier::external_body]
pub(crate) fn transmission_map_shift_remove(map: &mut TransmissionMap, id: &TransmissionID)
    ensures
        stored(*final(map)) == stored(*old(map)).remove(*id),
{
    map.shift_remove(id);
}

/// `IndexMap::iter`: every entry of the map once, the certificates of each handed out as a list
/// without repetition. Which entry comes first is left unsaid.
#[verifier::external_body]
pub(crate) fn transmission_map_entries(map: &TransmissionMap) -> (entries: Vec<
    (TransmissionID, (Transmission, Vec<Field>)),
>)
    ensures
        forall|id: TransmissionID| #[trigger]
            stored(*map).contains_key(id) <==> exists|i: int|
                0 <= i < entries.len() && (#[trigger] entries[i]).0 == id,
        forall|i: int|
            0 <= i < entries.len() ==> {
                &&& stored(*map)[(#[trigger] entries[i]).0] == (
                    entries[i].1.0@,
                    entries[i].1.1@.to_set(),
                )
                &&& entries[i].1.1@.no_duplicates()
            },
        forall|i: int, j: int|
            0 <= i < j < entries.len() ==> (#[trigger] entries[i]).0 != (#[trigger] entries[j]).0,
{
    map.iter().map(|(id, (bytes, set))| (*id, (bytes.clone(), set.iter().copied().collect()))).collect()
}

/// `IndexMap::new`: an empty map of aborted transmission IDs.
#[verifier::external_body]
pub(crate) fn aborted_map_new() -> (map: AbortedMap)
    ensures
        marked(map).dom() == Set::<TransmissionID>::empty(),
{
    IndexMap::new()
}

/// `IndexMap::contains_key`: whether the map holds an entry for the key.
#[verifier::external_body]
pub(crate) fn aborted_map_contains_key(map: &AbortedMap, id: &TransmissionID) -> (found: bool)
    ensures
        found == marked(*map).contains_key(*id),
{
    map.contains_key(id)
}

/// `IndexMap::get_mut`: the entry of the key, if there is one. What is written to it is what the
/// map holds for the key afterwards, and no other entry changes.
#[verifier::external_body]
pub(crate) fn aborted_map_get_mut<'a>(map: &'a mut AbortedMap, id: &TransmissionID) -> (entry:
    Option<&'a mut IndexSet<Field>>)
    ensures
        match entry {
            Some(entry) => {
                &&& marked(*old(map)).contains_key(*id)
                &&& marked(*old(map))[*id] == certificates(*entry)
                &&& marked(*final(map)) == marked(*old(map)).insert(
                    *id,
                    certificates(*final(entry)),
                )
            },
            None => {
                &&& !marked(*old(map)).contains_key(*id)
                &&& marked(*final(map)) == marked(*old(map))
            },
        },
{
    map.get_mut(id)
}

/// `IndexMap::insert`: the key maps to the value afterwards, and no other entry changes.
#[verifier::external_body]
pub(crate) fn aborted_map_insert(
    map: &mut AbortedMap,
    id: TransmissionID,
    certificate_ids: IndexSet<Field>,
)
    ensures
        marked(*final(map)) == marked(*old(map)).insert(id, certificates(certificate_ids)),
{
    map.insert(id, certificate_ids);
}

/// `IndexMap::shift_remove`: the key has no entry afterwards, and no other entry changes.
#[verifier::external_body]
pub(crate) fn aborted_map_shift_remove(map: &mut AbortedMap, id: &TransmissionID)
    ensures
        marked(*final(map)) == marked(*old(map)).remove(*id),
{
    map.shift_remove(id);
}

/// `IndexMap::new`: a map that provides nothing.
#[verifier::external_body]
pub(crate) fn provided_map_new() -> (map: ProvidedMap)
    ensures
        provided(map).dom() == Set::<TransmissionID>::empty(),
{
    IndexMap::new()
}

/// `IndexMap::insert`: the key maps to the value afterwards, and no other entry changes.
#[verifier::external_body]
pub(crate) fn provided_map_insert(
    map: &mut ProvidedMap,
    id: TransmissionID,
    transmission: Transmission,
)
    ensures
        provided(*final(map)) == provided(*old(map)).insert(id, transmission@),
{
    map.insert(id, transmission);
}

/// `IndexMap::swap_remove`: takes the value of the key out of the map, if there is one, and leaves
/// every other entry as it was.
#[verifier::external_body]
pub(crate) fn provided_map_swap_remove(map: &mut ProvidedMap, id: &TransmissionID) -> (taken:
    Option<Transmission>)
    ensures
        match taken {
            Some(transmission) => provided(*old(map)).contains_key(*id)
                && transmission@ == provided(*old(map))[*id],
            None => !provided(*old(map)).contains_key(*id),
        },
        provided(*final(map)) == provided(*old(map)).remove(*id),
{
    map.swap_remove(id)
}

} // verus!
