//! The storage service, and the model of what it holds.
use crate::storage::collections::{
    certificates, id_set_contains, id_set_iter, listed, provided, provided_map_insert,
    provided_map_new, provided_map_swap_remove, Field, ProvidedMap, Transmission, TransmissionID,
};
use crate::sequences::lemma_push_contains;
use indexmap::IndexSet;
use vstd::prelude::*;

verus! {

/// What a storage service holds: the transmissions, and the IDs recorded as aborted. Each entry
/// carries the certificates that refer to it.
#[verifier::ext_equal]
pub struct StorageModel {
    pub transmissions: Map<TransmissionID, (Seq<u8>, Set<Field>)>,
    pub aborted: Map<TransmissionID, Set<Field>>,
}

impl StorageModel {
    /// The storage that holds nothing.
    pub open spec fn empty() -> StorageModel {
        StorageModel { transmissions: Map::empty(), aborted: Map::empty() }
    }

    /// No entry is kept without a certificate that refers to it.
    pub open spec fn referenced(self) -> bool {
        &&& forall|id: TransmissionID| #[trigger]
            self.transmissions.contains_key(id) ==> self.transmissions[id].1
                != Set::<Field>::empty()
        &&& forall|id: TransmissionID| #[trigger]
            self.aborted.contains_key(id) ==> self.aborted[id] != Set::<Field>::empty()
    }

    /// Whether the certificate is counted against the transmission of the ID.
    pub open spec fn counts_transmission(self, certificate_id: Field, id: TransmissionID) -> bool {
        self.transmissions.contains_key(id) && self.transmissions[id].1.contains(certificate_id)
    }

    /// Whether the certificate is counted against the aborted entry of the ID.
    pub open spec fn counts_aborted(self, certificate_id: Field, id: TransmissionID) -> bool {
        self.aborted.contains_key(id) && self.aborted[id].contains(certificate_id)
    }

    /// Whether an ID that a batch declares can be accepted: its transmission is stored or provided,
    /// or it is aborted, by the caller's word or by what is recorded.
    pub open spec fn accepts(
        self,
        id: TransmissionID,
        transmissions: Map<TransmissionID, Seq<u8>>,
        aborted: Seq<TransmissionID>,
    ) -> bool {
        ||| self.transmissions.contains_key(id)
        ||| transmissions.contains_key(id)
        ||| aborted.contains(id)
        ||| self.aborted.contains_key(id)
    }

    /// The provided transmissions of the declared IDs that are not stored.
    pub open spec fn missing(
        self,
        declared: Seq<TransmissionID>,
        transmissions: Map<TransmissionID, Seq<u8>>,
    ) -> Map<TransmissionID, Seq<u8>> {
        Map::new(
            |id: TransmissionID|
                declared.contains(id) && transmissions.contains_key(id)
                    && !self.transmissions.contains_key(id),
            |id: TransmissionID| transmissions[id],
        )
    }

    /// Whether an insertion counts its certificate against the aborted entry of the ID: the caller
    /// declares the ID as aborted, or the ID is recorded as aborted and nothing else can answer for
    /// it.
    pub open spec fn marks(
        self,
        id: TransmissionID,
        declared: Seq<TransmissionID>,
        aborted: Seq<TransmissionID>,
        missing: Map<TransmissionID, Seq<u8>>,
    ) -> bool {
        ||| aborted.contains(id)
        ||| {
            &&& declared.contains(id)
            &&& self.aborted.contains_key(id)
            &&& !self.transmissions.contains_key(id)
            &&& !missing.contains_key(id)
        }
    }

    /// The transmissions after an insertion.
    pub open spec fn transmissions_after_insert(
        self,
        certificate_id: Field,
        declared: Seq<TransmissionID>,
        missing: Map<TransmissionID, Seq<u8>>,
    ) -> Map<TransmissionID, (Seq<u8>, Set<Field>)> {
        Map::new(
            |id: TransmissionID|
                self.transmissions.contains_key(id) || (declared.contains(id)
                    && missing.contains_key(id)),
            |id: TransmissionID|
                if !declared.contains(id) {
                    self.transmissions[id]
                } else if self.transmissions.contains_key(id) {
                    (self.transmissions[id].0, self.transmissions[id].1.insert(certificate_id))
                } else {
                    (missing[id], set![certificate_id])
                },
        )
    }

    /// The aborted entries after an insertion.
    pub open spec fn aborted_after_insert(
        self,
        certificate_id: Field,
        declared: Seq<TransmissionID>,
        aborted: Seq<TransmissionID>,
        missing: Map<TransmissionID, Seq<u8>>,
    ) -> Map<TransmissionID, Set<Field>> {
        Map::new(
            |id: TransmissionID| self.aborted.contains_key(id) || aborted.contains(id),
            |id: TransmissionID|
                if !self.marks(id, declared, aborted, missing) {
                    self.aborted[id]
                } else if self.aborted.contains_key(id) {
                    self.aborted[id].insert(certificate_id)
                } else {
                    set![certificate_id]
                },
        )
    }

    /// The storage after a certificate was inserted for the IDs that it declares.
    pub open spec fn insert(
        self,
        certificate_id: Field,
        declared: Seq<TransmissionID>,
        aborted: Seq<TransmissionID>,
        missing: Map<TransmissionID, Seq<u8>>,
    ) -> StorageModel {
        StorageModel {
            transmissions: self.transmissions_after_insert(certificate_id, declared, missing),
            aborted: self.aborted_after_insert(certificate_id, declared, aborted, missing),
        }
    }

    /// The storage after a certificate was removed for the IDs that it declares. An entry that no
    /// certificate refers to any longer is gone.
    pub open spec fn remove(self, certificate_id: Field, declared: Seq<TransmissionID>) -> StorageModel {
        StorageModel {
            transmissions: Map::new(
                |id: TransmissionID|
                    self.transmissions.contains_key(id) && (declared.contains(id)
                        ==> self.transmissions[id].1.remove(certificate_id)
                        != Set::<Field>::empty()),
                |id: TransmissionID|
                    if declared.contains(id) {
                        (self.transmissions[id].0, self.transmissions[id].1.remove(certificate_id))
                    } else {
                        self.transmissions[id]
                    },
            ),
            aborted: Map::new(
                |id: TransmissionID|
                    self.aborted.contains_key(id) && (declared.contains(id)
                        ==> self.aborted[id].remove(certificate_id) != Set::<Field>::empty()),
                |id: TransmissionID|
                    if declared.contains(id) {
                        self.aborted[id].remove(certificate_id)
                    } else {
                        self.aborted[id]
                    },
            ),
        }
    }
}

/// Two maps agree on every ID that is not listed.
pub open spec fn agree_outside(
    left: Map<TransmissionID, Seq<u8>>,
    right: Map<TransmissionID, Seq<u8>>,
    ids: Seq<TransmissionID>,
) -> bool {
    forall|id: TransmissionID|
        !ids.contains(id) ==> (#[trigger] left.contains_key(id) <==> right.contains_key(id)) && (
        right.contains_key(id) ==> left[id] == right[id])
}

/// The part of a batch header that the storage reads: the transmission IDs that the batch declares.
pub struct BatchHeader {
    transmission_ids: IndexSet<TransmissionID>,
}

impl BatchHeader {
    /// The transmission IDs that the batch declares, in order.
    pub closed spec fn declared(&self) -> Seq<TransmissionID> {
        listed(self.transmission_ids)
    }

    /// Initializes the header of a batch that declares the given transmission IDs.
    pub fn new(transmission_ids: IndexSet<TransmissionID>) -> (header: Self)
        ensures
            header.declared() == listed(transmission_ids),
    {
        BatchHeader { transmission_ids }
    }

    /// Returns the transmission IDs that the batch declares.
    pub fn transmission_ids(&self) -> (ids: &IndexSet<TransmissionID>)
        ensures
            listed(*ids) == self.declared(),
    {
        &self.transmission_ids
    }
}

/// Why a storage service refuses a batch.
#[derive(Clone, Copy, Debug, PartialEq, Eq, Structural)]
pub enum StorageError {
    /// A declared transmission is neither stored, nor provided, nor aborted.
    FailedToProvideTransmission,
}

impl StorageError {
    /// The message of the error.
    pub open spec fn message(self) -> Seq<char> {
        match self {
            StorageError::FailedToProvideTransmission => "Failed to provide a transmission"@,
        }
    }

    /// Returns the message of the error.
    pub fn to_string(&self) -> (message: String)
        ensures
            message@ == self.message(),
    {
        match self {
            StorageError::FailedToProvideTransmission => "Failed to provide a transmission".to_owned(),
        }
    }
}

/// Storage of the transmissions that certificates commit to.
pub trait StorageService {
    /// What the storage holds.
    spec fn model(&self) -> StorageModel;

    /// Returns `true` if the storage holds the transmission for the specified `transmission ID`,
    /// i.e. exactly when [`Self::get_transmission`] would return `Some`.
    ///
    /// This is `false` for an ID that storage knows only as aborted, which holds no transmission to
    /// hand back; see [`Self::contains_aborted_transmission`].
    fn contains_retrievable_transmission(&self, transmission_id: TransmissionID) -> (contains: bool)
        ensures
            contains == self.model().transmissions.contains_key(transmission_id),
    ;

    /// Returns `true` if the specified `transmission ID` is recorded as aborted.
    ///
    /// This and [`Self::contains_retrievable_transmission`] are not mutually exclusive: one
    /// certificate can record an ID as aborted while another provides the bytes for it.
    fn contains_aborted_transmission(&self, transmission_id: TransmissionID) -> (contains: bool)
        ensures
            contains == self.model().aborted.contains_key(transmission_id),
    ;

    /// Returns the transmission for the given `transmission ID`.
    /// If the transmission ID does not exist in storage, `None` is returned.
    fn get_transmission(&self, transmission_id: TransmissionID) -> (transmission: Option<
        Transmission,
    >)
        ensures
            match transmission {
                Some(transmission) => {
                    &&& self.model().transmissions.contains_key(transmission_id)
                    &&& transmission@ == self.model().transmissions[transmission_id].0
                },
                None => !self.model().transmissions.contains_key(transmission_id),
            },
    ;

    /// Takes a batch header and the transmissions provided for it, and returns the subset of those
    /// transmissions that the storage does not already hold.
    ///
    /// A transmission that cannot be retrieved from this storage must either be provided by the
    /// caller or be classified as aborted, whether declared by the caller or already recorded in
    /// storage. Anything else is an error: a peer does not get to have a certificate accepted while
    /// withholding a transmission that it commits to.
    fn find_missing_transmissions(
        &self,
        batch_header: &BatchHeader,
        transmissions: ProvidedMap,
        aborted_transmissions: IndexSet<TransmissionID>,
    ) -> (missing: Result<ProvidedMap, StorageError>)
        ensures
            match missing {
                Ok(missing) => {
                    &&& forall|id: TransmissionID|
                        batch_header.declared().contains(id) ==> #[trigger] self.model().accepts(
                            id,
                            provided(transmissions),
                            listed(aborted_transmissions),
                        )
                    &&& provided(missing) == self.model().missing(
                        batch_header.declared(),
                        provided(transmissions),
                    )
                },
                Err(_) => exists|id: TransmissionID|
                    batch_header.declared().contains(id) && !#[trigger] self.model().accepts(
                        id,
                        provided(transmissions),
                        listed(aborted_transmissions),
                    ),
            },
            missing is Err <==> exists|id: TransmissionID|
                {
                    &&& #[trigger] batch_header.declared().contains(id)
                    &&& !self.model().transmissions.contains_key(id)
                    &&& !provided(transmissions).contains_key(id)
                    &&& !listed(aborted_transmissions).contains(id)
                    &&& !self.model().aborted.contains_key(id)
                },
            (forall|id: TransmissionID| #[trigger]
                batch_header.declared().contains(id) ==> self.model().transmissions.contains_key(
                    id,
                )) ==> missing is Ok && provided(missing->Ok_0) == Map::<
                TransmissionID,
                Seq<u8>,
            >::empty(),
            missing matches Ok(missing) ==> forall|id: TransmissionID| #[trigger]
                provided(missing).contains_key(id) <==> {
                    &&& batch_header.declared().contains(id)
                    &&& provided(transmissions).contains_key(id)
                    &&& !self.model().transmissions.contains_key(id)
                },
    {
        let ghost declared = batch_header.declared();
        let ghost given = provided(transmissions);
        let mut remaining = transmissions;
        let mut missing_transmissions: ProvidedMap = provided_map_new();
        let ids: Vec<TransmissionID> = id_set_iter(batch_header.transmission_ids());
        assert(provided(missing_transmissions) =~= self.model().missing(declared.take(0), given));
        for index in 0..ids.len()
            invariant
                ids@ == declared,
                ids@.no_duplicates(),
                declared == batch_header.declared(),
                given == provided(transmissions),
                forall|i: int|
                    0 <= i < index ==> #[trigger] self.model().accepts(
                        declared[i],
                        given,
                        listed(aborted_transmissions),
                    ),
                provided(missing_transmissions) == self.model().missing(
                    declared.take(index as int),
                    given,
                ),
                agree_outside(provided(remaining), given, declared.take(index as int)),
        {
            let transmission_id: TransmissionID = ids[index];
            let ghost done = declared.take(index as int);
            let ghost next = declared.take(index + 1);
            proof {
                assert(next =~= done.push(transmission_id));
                lemma_push_contains(done, transmission_id);
                assert(!done.contains(transmission_id));
                assert(provided(remaining).contains_key(transmission_id) <==> given.contains_key(
                    transmission_id,
                ));
            }
            let ghost before = provided(remaining);
            if !self.contains_retrievable_transmission(transmission_id) {
                match provided_map_swap_remove(&mut remaining, &transmission_id) {
                    Some(transmission) => {
                        provided_map_insert(
                            &mut missing_transmissions,
                            transmission_id,
                            transmission,
                        );
                    },
                    None => {
                        if !id_set_contains(&aborted_transmissions, &transmission_id)
                            && !self.contains_aborted_transmission(transmission_id) {
                            assert(declared.contains(transmission_id));
                            assert(!self.model().accepts(
                                transmission_id,
                                given,
                                listed(aborted_transmissions),
                            ));
                            return Err(StorageError::FailedToProvideTransmission);
                        }
                    },
                }
            }
            assert(self.model().accepts(transmission_id, given, listed(aborted_transmissions)));
            assert(provided(missing_transmissions) =~= self.model().missing(next, given));
            assert(agree_outside(provided(remaining), given, next)) by {
                assert forall|id: TransmissionID| !next.contains(id) implies (
                #[trigger] provided(remaining).contains_key(id) <==> given.contains_key(id)) && (
                given.contains_key(id) ==> provided(remaining)[id] == given[id]) by {
                    assert(!done.contains(id) && id != transmission_id);
                    assert(before.contains_key(id) <==> given.contains_key(id));
                }
            }
        }
        assert(declared.take(ids.len() as int) =~= declared);
        assert forall|id: TransmissionID| #[trigger]
            declared.contains(id) implies self.model().accepts(
            id,
            given,
            listed(aborted_transmissions),
        ) by {
            let i = choose|i: int| 0 <= i < declared.len() && declared[i] == id;
            assert(self.model().accepts(declared[i], given, listed(aborted_transmissions)));
        }
        Ok(missing_transmissions)
    }

    /// Inserts the given certificate ID for each of the transmission IDs, using the missing transmissions map, into storage.
    ///
    /// The certificate is counted against every ID it declares: against the transmission entry for
    /// the IDs whose bytes storage holds or the caller provides, and against the aborted entry for
    /// the rest - both the IDs the caller declares as aborted, and the ones storage already recorded
    /// as aborted for an earlier certificate.
    fn insert_transmissions(
        &mut self,
        certificate_id: Field,
        transmission_ids: IndexSet<TransmissionID>,
        aborted_transmission_ids: IndexSet<TransmissionID>,
        missing_transmissions: ProvidedMap,
    )
        ensures
            final(self).model() == old(self).model().insert(
                certificate_id,
                listed(transmission_ids),
                listed(aborted_transmission_ids),
                provided(missing_transmissions),
            ),
    ;

    /// Removes the certificate ID for the transmissions from storage.
    ///
    /// If the transmission no longer references any certificate IDs, the entry is removed from storage.
    fn remove_transmissions(
        &mut self,
        certificate_id: &Field,
        transmission_ids: &IndexSet<TransmissionID>,
    )
        ensures
            final(self).model() == old(self).model().remove(
                *certificate_id,
                listed(*transmission_ids),
            ),
    ;

    /// Returns the `(transmission ID, (transmission, certificate IDs))` entries, each once.
    fn as_hashmap(&self) -> (entries: Vec<(TransmissionID, (Transmission, Vec<Field>))>)
        ensures
            forall|id: TransmissionID| #[trigger]
                self.model().transmissions.contains_key(id) <==> exists|i: int|
                    0 <= i < entries.len() && (#[trigger] entries[i]).0 == id,
            forall|i: int|
                0 <= i < entries.len() ==> {
                    &&& self.model().transmissions[(#[trigger] entries[i]).0] == (
                        entries[i].1.0@,
                        entries[i].1.1@.to_set(),
                    )
                    &&& entries[i].1.1@.no_duplicates()
                },
            forall|i: int, j: int|
                0 <= i < j < entries.len() ==> (#[trigger] entries[i]).0 != (
                #[trigger] entries[j]).0,
    ;
}

} // verus!
