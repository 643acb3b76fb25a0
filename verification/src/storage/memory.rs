//! The in-memory storage service.
use crate::sequences::lemma_push_contains;
use crate::storage::collections::{
    aborted_map_contains_key, aborted_map_get_mut, aborted_map_insert, aborted_map_new,
    aborted_map_shift_remove, certificate_set_insert, certificate_set_is_empty,
    certificate_set_new, certificate_set_swap_remove, certificates, id_set_iter, listed, marked,
    provided, provided_map_swap_remove, stored, transmission_map_contains_key,
    transmission_map_entries, transmission_map_get, transmission_map_get_mut,
    transmission_map_insert, transmission_map_new, transmission_map_shift_remove, AbortedMap,
    Field, ProvidedMap, Transmission, TransmissionID, TransmissionMap,
};
use crate::storage::service::{agree_outside, StorageModel, StorageService};
use indexmap::IndexSet;
use vstd::prelude::*;

verus! {

/// A BFT in-memory storage service.
#[derive(Debug)]
pub struct BFTMemoryService {
    /// The map of `transmission ID` to `(transmission, certificate IDs)` entries.
    transmissions: TransmissionMap,
    /// The map of `aborted transmission ID` to `certificate IDs` entries.
    aborted_transmission_ids: AbortedMap,
}

impl Default for BFTMemoryService {
    /// Initializes a new BFT in-memory storage service.
    fn default() -> (service: Self)
        ensures
            service.model() == StorageModel::empty(),
    {
        Self::new()
    }
}

impl BFTMemoryService {
    /// Initializes a new BFT in-memory storage service.
    pub fn new() -> (service: Self)
        ensures
            service.model() == StorageModel::empty(),
    {
        let service = BFTMemoryService {
            transmissions: transmission_map_new(),
            aborted_transmission_ids: aborted_map_new(),
        };
        assert(service.model() =~= StorageModel::empty());
        service
    }

    /// Returns `true` if the storage knows the specified `transmission ID`, with its transmission
    /// or as aborted.
    pub fn contains_transmission(&self, transmission_id: TransmissionID) -> (contains: bool)
        ensures
            contains == (self.model().transmissions.contains_key(transmission_id)
                || self.model().aborted.contains_key(transmission_id)),
    {
        transmission_map_contains_key(&self.transmissions, &transmission_id)
            || aborted_map_contains_key(&self.aborted_transmission_ids, &transmission_id)
    }

    /// Counts the certificate against the stored transmission of the ID. Returns `false`, and
    /// changes nothing, if there is none.
    fn insert_reference(&mut self, certificate_id: Field, transmission_id: TransmissionID) -> (found:
        bool)
        ensures
            found == old(self).model().transmissions.contains_key(transmission_id),
            final(self).model() == (if found {
                StorageModel {
                    transmissions: old(self).model().transmissions.insert(
                        transmission_id,
                        (
                            old(self).model().transmissions[transmission_id].0,
                            old(self).model().transmissions[transmission_id].1.insert(
                                certificate_id,
                            ),
                        ),
                    ),
                    ..old(self).model()
                }
            } else {
                old(self).model()
            }),
    {
        match transmission_map_get_mut(&mut self.transmissions, &transmission_id) {
            Some(entry) => {
                certificate_set_insert(&mut entry.1, certificate_id);
                true
            },
            None => false,
        }
    }

    /// Counts the certificate against the aborted entry of the ID, which is created if need be.
    fn insert_aborted(&mut self, certificate_id: Field, transmission_id: TransmissionID)
        ensures
            final(self).model() == (StorageModel {
                aborted: old(self).model().aborted.insert(
                    transmission_id,
                    if old(self).model().aborted.contains_key(transmission_id) {
                        old(self).model().aborted[transmission_id].insert(certificate_id)
                    } else {
                        set![certificate_id]
                    },
                ),
                ..old(self).model()
            }),
    {
        match aborted_map_get_mut(&mut self.aborted_transmission_ids, &transmission_id) {
            Some(certificate_ids) => {
                certificate_set_insert(certificate_ids, certificate_id);
                return ;
            },
            None => {},
        }
        let mut certificate_ids = certificate_set_new();
        certificate_set_insert(&mut certificate_ids, certificate_id);
        aborted_map_insert(&mut self.aborted_transmission_ids, transmission_id, certificate_ids);
    }

    /// Removes the certificate from the transmission of the ID, and the transmission with its last
    /// certificate.
    fn remove_reference(&mut self, certificate_id: &Field, transmission_id: &TransmissionID)
        ensures
            final(self).model() == (StorageModel {
                transmissions: old(self).model().remove(
                    *certificate_id,
                    seq![*transmission_id],
                ).transmissions,
                ..old(self).model()
            }),
    {
        let ghost start = self.model();
        assert(seq![*transmission_id].contains(*transmission_id)) by {
            assert(seq![*transmission_id][0] == *transmission_id);
        }
        let unreferenced: bool = match transmission_map_get_mut(
            &mut self.transmissions,
            transmission_id,
        ) {
            Some(entry) => {
                certificate_set_swap_remove(&mut entry.1, certificate_id);
                certificate_set_is_empty(&entry.1)
            },
            None => false,
        };
        if unreferenced {
            transmission_map_shift_remove(&mut self.transmissions, transmission_id);
        }
        assert(self.model().transmissions =~~= start.remove(
            *certificate_id,
            seq![*transmission_id],
        ).transmissions);
    }

    /// Removes the certificate from the aborted entry of the ID, and the entry with its last
    /// certificate.
    fn remove_aborted(&mut self, certificate_id: &Field, transmission_id: &TransmissionID)
        ensures
            final(self).model() == (StorageModel {
                aborted: old(self).model().remove(*certificate_id, seq![*transmission_id]).aborted,
                ..old(self).model()
            }),
    {
        let ghost start = self.model();
        assert(seq![*transmission_id].contains(*transmission_id)) by {
            assert(seq![*transmission_id][0] == *transmission_id);
        }
        let unreferenced: bool = match aborted_map_get_mut(
            &mut self.aborted_transmission_ids,
            transmission_id,
        ) {
            Some(certificate_ids) => {
                certificate_set_swap_remove(certificate_ids, certificate_id);
                certificate_set_is_empty(certificate_ids)
            },
            None => false,
        };
        if unreferenced {
            aborted_map_shift_remove(&mut self.aborted_transmission_ids, transmission_id);
        }
        assert(self.model().aborted =~~= start.remove(
            *certificate_id,
            seq![*transmission_id],
        ).aborted);
    }
}

impl StorageService for BFTMemoryService {
    closed spec fn model(&self) -> StorageModel {
        StorageModel {
            transmissions: stored(self.transmissions),
            aborted: marked(self.aborted_transmission_ids),
        }
    }

    fn contains_retrievable_transmission(&self, transmission_id: TransmissionID) -> (contains:
        bool) {
        transmission_map_contains_key(&self.transmissions, &transmission_id)
    }

    fn contains_aborted_transmission(&self, transmission_id: TransmissionID) -> (contains: bool) {
        aborted_map_contains_key(&self.aborted_transmission_ids, &transmission_id)
    }

    fn get_transmission(&self, transmission_id: TransmissionID) -> (transmission: Option<
        Transmission,
    >) {
        match transmission_map_get(&self.transmissions, &transmission_id) {
            Some(entry) => {
                let transmission = entry.0.clone();
                assert(transmission@ =~= entry.0@);
                Some(transmission)
            },
            None => None,
        }
    }

    fn insert_transmissions(
        &mut self,
        certificate_id: Field,
        transmission_ids: IndexSet<TransmissionID>,
        aborted_transmission_ids: IndexSet<TransmissionID>,
        missing_transmissions: ProvidedMap,
    ) {
        let ghost start = self.model();
        let ghost declared = listed(transmission_ids);
        let ghost aborted = listed(aborted_transmission_ids);
        let ghost given = provided(missing_transmissions);
        let mut remaining = missing_transmissions;
        let ids: Vec<TransmissionID> = id_set_iter(&transmission_ids);
        let aborted_ids: Vec<TransmissionID> = id_set_iter(&aborted_transmission_ids);
        let ghost none: Seq<TransmissionID> = Seq::empty();
        // Inserts **only the missing** transmissions from storage, and the certificate ID into the
        // corresponding set for **all** transmissions.
        assert(self.model() =~= start.insert(certificate_id, declared.take(0), none, given));
        for index in 0..ids.len()
            invariant
                ids@ == declared,
                declared.no_duplicates(),
                none == Seq::<TransmissionID>::empty(),
                self.model() == start.insert(
                    certificate_id,
                    declared.take(index as int),
                    none,
                    given,
                ),
                agree_outside(provided(remaining), given, declared.take(index as int)),
        {
            let transmission_id: TransmissionID = ids[index];
            let ghost done = declared.take(index as int);
            let ghost next = declared.take(index + 1);
            let ghost before = provided(remaining);
            proof {
                assert(next =~= done.push(transmission_id));
                lemma_push_contains(done, transmission_id);
                assert(!done.contains(transmission_id));
                assert(before.contains_key(transmission_id) <==> given.contains_key(
                    transmission_id,
                ));
            }
            if !self.insert_reference(certificate_id, transmission_id) {
                match provided_map_swap_remove(&mut remaining, &transmission_id) {
                    Some(transmission) => {
                        let mut certificate_ids = certificate_set_new();
                        certificate_set_insert(&mut certificate_ids, certificate_id);
                        transmission_map_insert(
                            &mut self.transmissions,
                            transmission_id,
                            transmission,
                            certificate_ids,
                        );
                    },
                    None => {
                        if aborted_map_contains_key(
                            &self.aborted_transmission_ids,
                            &transmission_id,
                        ) {
                            self.insert_aborted(certificate_id, transmission_id);
                        }
                    },
                }
            }
            assert(self.model() =~~= start.insert(certificate_id, next, none, given));
            assert(agree_outside(provided(remaining), given, next)) by {
                assert forall|id: TransmissionID| !next.contains(id) implies (
                #[trigger] provided(remaining).contains_key(id) <==> given.contains_key(id)) && (
                given.contains_key(id) ==> provided(remaining)[id] == given[id]) by {
                    assert(!done.contains(id) && id != transmission_id);
                    assert(before.contains_key(id) <==> given.contains_key(id));
                }
            }
        }
        assert(declared.take(ids.len() as int) =~= declared);
        // Inserts the aborted transmission IDs.
        for index in 0..aborted_ids.len()
            invariant
                aborted_ids@ == aborted,
                self.model() == start.insert(
                    certificate_id,
                    declared,
                    aborted.take(index as int),
                    given,
                ),
        {
            let aborted_id: TransmissionID = aborted_ids[index];
            let ghost done = aborted.take(index as int);
            assert(aborted.take(index + 1) =~= done.push(aborted_id));
            proof {
                lemma_push_contains(done, aborted_id);
            }
            self.insert_aborted(certificate_id, aborted_id);
            assert(self.model() =~~= start.insert(
                certificate_id,
                declared,
                aborted.take(index + 1),
                given,
            ));
        }
        assert(aborted.take(aborted_ids.len() as int) =~= aborted);
    }

    fn remove_transmissions(
        &mut self,
        certificate_id: &Field,
        transmission_ids: &IndexSet<TransmissionID>,
    ) {
        let ghost start = self.model();
        let ghost declared = listed(*transmission_ids);
        let ids: Vec<TransmissionID> = id_set_iter(transmission_ids);
        assert(self.model() =~= start.remove(*certificate_id, declared.take(0)));
        for index in 0..ids.len()
            invariant
                ids@ == declared,
                declared.no_duplicates(),
                self.model() == start.remove(*certificate_id, declared.take(index as int)),
        {
            let transmission_id: TransmissionID = ids[index];
            let ghost done = declared.take(index as int);
            let ghost next = declared.take(index + 1);
            proof {
                assert(next =~= done.push(transmission_id));
                lemma_push_contains(done, transmission_id);
                assert(!done.contains(transmission_id));
                lemma_push_contains(Seq::<TransmissionID>::empty(), transmission_id);
                assert(seq![transmission_id] =~= Seq::<TransmissionID>::empty().push(
                    transmission_id,
                ));
            }
            self.remove_reference(certificate_id, &transmission_id);
            self.remove_aborted(certificate_id, &transmission_id);
            assert(self.model() =~~= start.remove(*certificate_id, next));
        }
        assert(declared.take(ids.len() as int) =~= declared);
    }

    fn as_hashmap(&self) -> (entries: Vec<(TransmissionID, (Transmission, Vec<Field>))>) {
        transmission_map_entries(&self.transmissions)
    }
}

} // verus!
