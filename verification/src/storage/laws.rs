//! The laws that every storage service keeps, whichever sequence of calls it sees.
use crate::storage::collections::{Field, TransmissionID};
use crate::storage::service::StorageModel;
use vstd::prelude::*;

verus! {

/// Storage that holds nothing has no entry without a reference.
pub proof fn empty_storage_is_referenced()
    ensures
        StorageModel::empty().referenced(),
{
}

/// An insertion leaves no entry without a reference.
pub proof fn insert_keeps_entries_referenced(
    storage: StorageModel,
    certificate_id: Field,
    declared: Seq<TransmissionID>,
    aborted: Seq<TransmissionID>,
    missing: Map<TransmissionID, Seq<u8>>,
)
    requires
        storage.referenced(),
    ensures
        storage.insert(certificate_id, declared, aborted, missing).referenced(),
{
    let after = storage.insert(certificate_id, declared, aborted, missing);
    assert forall|id: TransmissionID| #[trigger]
        after.transmissions.contains_key(id) implies after.transmissions[id].1
        != Set::<Field>::empty() by {
        if declared.contains(id) {
            assert(after.transmissions[id].1.contains(certificate_id));
        }
    }
    assert forall|id: TransmissionID| #[trigger]
        after.aborted.contains_key(id) implies after.aborted[id] != Set::<Field>::empty() by {
        if storage.marks(id, declared, aborted, missing) {
            assert(after.aborted[id].contains(certificate_id));
        }
    }
}

/// A removal leaves no entry without a reference.
pub proof fn remove_keeps_entries_referenced(
    storage: StorageModel,
    certificate_id: Field,
    declared: Seq<TransmissionID>,
)
    requires
        storage.referenced(),
    ensures
        storage.remove(certificate_id, declared).referenced(),
{
}

/// A transmission that is provided for a declared ID is the one that is stored afterwards, unless
/// the ID had one: a stored transmission is never overwritten.
pub proof fn inserted_transmission_is_retrievable(
    storage: StorageModel,
    certificate_id: Field,
    declared: Seq<TransmissionID>,
    aborted: Seq<TransmissionID>,
    missing: Map<TransmissionID, Seq<u8>>,
    id: TransmissionID,
)
    requires
        declared.contains(id),
        missing.contains_key(id),
    ensures
        ({
            let after = storage.insert(certificate_id, declared, aborted, missing);
            &&& after.transmissions.contains_key(id)
            &&& after.transmissions[id].0 == if storage.transmissions.contains_key(id) {
                storage.transmissions[id].0
            } else {
                missing[id]
            }
        }),
{
}

/// A stored transmission keeps its bytes and its references through every insertion.
pub proof fn stored_transmission_is_not_overwritten(
    storage: StorageModel,
    certificate_id: Field,
    declared: Seq<TransmissionID>,
    aborted: Seq<TransmissionID>,
    missing: Map<TransmissionID, Seq<u8>>,
    id: TransmissionID,
)
    requires
        storage.transmissions.contains_key(id),
    ensures
        ({
            let after = storage.insert(certificate_id, declared, aborted, missing);
            &&& after.transmissions.contains_key(id)
            &&& after.transmissions[id].0 == storage.transmissions[id].0
            &&& storage.transmissions[id].1.subset_of(after.transmissions[id].1)
        }),
{
}

/// An entry survives the removal of a certificate as long as another certificate refers to it, and
/// keeps that reference.
pub proof fn entry_survives_while_it_is_referenced(
    storage: StorageModel,
    removed: Field,
    other: Field,
    declared: Seq<TransmissionID>,
    id: TransmissionID,
)
    requires
        removed != other,
    ensures
        storage.counts_transmission(other, id) ==> {
            &&& storage.remove(removed, declared).counts_transmission(other, id)
            &&& storage.remove(removed, declared).transmissions[id].0
                == storage.transmissions[id].0
        },
        storage.counts_aborted(other, id) ==> storage.remove(removed, declared).counts_aborted(
            other,
            id,
        ),
{
    let after = storage.remove(removed, declared);
    if storage.counts_transmission(other, id) {
        assert(storage.transmissions[id].1.remove(removed).contains(other));
    }
    if storage.counts_aborted(other, id) {
        assert(storage.aborted[id].remove(removed).contains(other));
    }
}

/// An entry whose only reference is a certificate is gone once that certificate is removed for the
/// ID.
pub proof fn entry_leaves_with_its_last_reference(
    storage: StorageModel,
    certificate_id: Field,
    declared: Seq<TransmissionID>,
    id: TransmissionID,
)
    requires
        declared.contains(id),
    ensures
        storage.transmissions.contains_key(id) && storage.transmissions[id].1 == set![
            certificate_id,
        ] ==> !storage.remove(certificate_id, declared).transmissions.contains_key(id),
        storage.aborted.contains_key(id) && storage.aborted[id] == set![certificate_id]
            ==> !storage.remove(certificate_id, declared).aborted.contains_key(id),
{
    assert(set![certificate_id].remove(certificate_id) =~= Set::<Field>::empty());
}

/// Removing a certificate that no entry refers to changes nothing.
pub proof fn removing_an_unrelated_certificate_changes_nothing(
    storage: StorageModel,
    certificate_id: Field,
    declared: Seq<TransmissionID>,
)
    requires
        storage.referenced(),
        forall|id: TransmissionID| !storage.counts_transmission(certificate_id, id),
        forall|id: TransmissionID| !storage.counts_aborted(certificate_id, id),
    ensures
        storage.remove(certificate_id, declared) == storage,
{
    let after = storage.remove(certificate_id, declared);
    assert forall|id: TransmissionID| #[trigger]
        storage.transmissions.contains_key(id) implies storage.transmissions[id].1.remove(
        certificate_id,
    ) == storage.transmissions[id].1 by {
        assert(!storage.counts_transmission(certificate_id, id));
        assert(storage.transmissions[id].1.remove(certificate_id)
            =~= storage.transmissions[id].1);
    }
    assert forall|id: TransmissionID| #[trigger]
        storage.aborted.contains_key(id) implies storage.aborted[id].remove(certificate_id)
        == storage.aborted[id] by {
        assert(!storage.counts_aborted(certificate_id, id));
        assert(storage.aborted[id].remove(certificate_id) =~= storage.aborted[id]);
    }
    assert(after =~~= storage);
}

/// A certificate is counted against every ID that an accepted batch declares: against its
/// transmission, or against its aborted entry.
pub proof fn accepted_batch_is_counted_against_every_declared_id(
    storage: StorageModel,
    certificate_id: Field,
    declared: Seq<TransmissionID>,
    aborted: Seq<TransmissionID>,
    transmissions: Map<TransmissionID, Seq<u8>>,
    id: TransmissionID,
)
    requires
        declared.contains(id),
        storage.accepts(id, transmissions, aborted),
    ensures
        ({
            let missing = storage.missing(declared, transmissions);
            let after = storage.insert(certificate_id, declared, aborted, missing);
            after.counts_transmission(certificate_id, id) || after.counts_aborted(
                certificate_id,
                id,
            )
        }),
{
}

/// The bytes that are provided for an ID become retrievable, even if the ID is recorded as aborted.
pub proof fn provided_bytes_reach_storage(
    storage: StorageModel,
    certificate_id: Field,
    declared: Seq<TransmissionID>,
    aborted: Seq<TransmissionID>,
    transmissions: Map<TransmissionID, Seq<u8>>,
    id: TransmissionID,
)
    requires
        declared.contains(id),
        transmissions.contains_key(id),
        !storage.transmissions.contains_key(id),
    ensures
        ({
            let missing = storage.missing(declared, transmissions);
            let after = storage.insert(certificate_id, declared, aborted, missing);
            &&& after.transmissions.contains_key(id)
            &&& after.transmissions[id].0 == transmissions[id]
        }),
{
}

/// A certificate that declares an ID that is only recorded as aborted, without bytes and without
/// declaring it aborted again, is counted against the aborted entry: the entry outlives the
/// certificate that first recorded it.
pub proof fn already_aborted_id_is_counted_against_a_later_certificate(
    storage: StorageModel,
    aborting: Field,
    later: Field,
    declared: Seq<TransmissionID>,
    aborted: Seq<TransmissionID>,
    missing: Map<TransmissionID, Seq<u8>>,
    id: TransmissionID,
)
    requires
        aborting != later,
        declared.contains(id),
        storage.aborted.contains_key(id),
        !storage.transmissions.contains_key(id),
        !missing.contains_key(id),
    ensures
        storage.insert(later, declared, aborted, missing).counts_aborted(later, id),
        storage.insert(later, declared, aborted, missing).remove(
            aborting,
            declared,
        ).counts_aborted(later, id),
{
    let inserted = storage.insert(later, declared, aborted, missing);
    assert(inserted.aborted[id].remove(aborting).contains(later));
}

/// A declared ID that neither storage nor the caller can produce leaves no trace.
pub proof fn unknown_undeliverable_id_is_not_recorded(
    storage: StorageModel,
    certificate_id: Field,
    declared: Seq<TransmissionID>,
    aborted: Seq<TransmissionID>,
    missing: Map<TransmissionID, Seq<u8>>,
    id: TransmissionID,
)
    requires
        !storage.transmissions.contains_key(id),
        !storage.aborted.contains_key(id),
        !aborted.contains(id),
        !missing.contains_key(id),
    ensures
        !storage.insert(certificate_id, declared, aborted, missing).transmissions.contains_key(id),
        !storage.insert(certificate_id, declared, aborted, missing).aborted.contains_key(id),
{
}

/// The aborted entry and the transmission of an ID are independent: inserting a certificate that
/// declares the ID with its bytes changes no aborted entry, and declaring IDs as aborted changes no
/// transmission.
pub proof fn aborted_and_retrievable_are_independent(
    storage: StorageModel,
    certificate_id: Field,
    declared: Seq<TransmissionID>,
    aborted: Seq<TransmissionID>,
    missing: Map<TransmissionID, Seq<u8>>,
    id: TransmissionID,
)
    ensures
        !aborted.contains(id) && (storage.transmissions.contains_key(id)
            || missing.contains_key(id)) ==> {
            let after = storage.insert(certificate_id, declared, aborted, missing);
            &&& after.aborted.contains_key(id) <==> storage.aborted.contains_key(id)
            &&& storage.aborted.contains_key(id) ==> after.aborted[id] == storage.aborted[id]
        },
        !declared.contains(id) ==> {
            let after = storage.insert(certificate_id, declared, aborted, missing);
            &&& after.transmissions.contains_key(id) <==> storage.transmissions.contains_key(id)
            &&& storage.transmissions.contains_key(id) ==> after.transmissions[id]
                == storage.transmissions[id]
        },
{
}

/// Removing a certificate for every ID that it was inserted for undoes the insertion, if the
/// certificate was new to storage.
pub proof fn removal_undoes_insertion(
    storage: StorageModel,
    certificate_id: Field,
    declared: Seq<TransmissionID>,
    aborted: Seq<TransmissionID>,
    missing: Map<TransmissionID, Seq<u8>>,
)
    requires
        storage.referenced(),
        forall|id: TransmissionID| !storage.counts_transmission(certificate_id, id),
        forall|id: TransmissionID| !storage.counts_aborted(certificate_id, id),
    ensures
        storage.insert(certificate_id, declared, aborted, missing).remove(
            certificate_id,
            declared + aborted,
        ) == storage,
{
    let inserted = storage.insert(certificate_id, declared, aborted, missing);
    let after = inserted.remove(certificate_id, declared + aborted);
    let all = declared + aborted;
    assert forall|id: TransmissionID| #[trigger]
        all.contains(id) <==> declared.contains(id) || aborted.contains(id) by {
        if declared.contains(id) {
            let i = choose|i: int| 0 <= i < declared.len() && declared[i] == id;
            assert(all[i] == id);
        }
        if aborted.contains(id) {
            let i = choose|i: int| 0 <= i < aborted.len() && aborted[i] == id;
            assert(all[declared.len() + i] == id);
        }
    }
    assert forall|id: TransmissionID| true implies (#[trigger] after.transmissions.contains_key(id)
        <==> storage.transmissions.contains_key(id)) && (storage.transmissions.contains_key(id)
        ==> after.transmissions[id] == storage.transmissions[id]) by {
        assert(set![certificate_id].remove(certificate_id) =~= Set::<Field>::empty());
        if storage.transmissions.contains_key(id) {
            let references = storage.transmissions[id].1;
            assert(!storage.counts_transmission(certificate_id, id));
            assert(references.insert(certificate_id).remove(certificate_id) =~= references);
            assert(references.remove(certificate_id) =~= references);
        }
    }
    assert forall|id: TransmissionID| true implies (#[trigger] after.aborted.contains_key(id)
        <==> storage.aborted.contains_key(id)) && (storage.aborted.contains_key(id)
        ==> after.aborted[id] == storage.aborted[id]) by {
        assert(set![certificate_id].remove(certificate_id) =~= Set::<Field>::empty());
        if storage.aborted.contains_key(id) {
            let references = storage.aborted[id];
            assert(!storage.counts_aborted(certificate_id, id));
            assert(references.insert(certificate_id).remove(certificate_id) =~= references);
            assert(references.remove(certificate_id) =~= references);
        }
    }
    assert(after.transmissions =~= storage.transmissions);
    assert(after.aborted =~= storage.aborted);
}

/// An ID is accepted exactly if someone answers for it: its transmission is stored, or it is
/// provided, or the caller declares it as aborted, or storage has recorded it as aborted. So a batch
/// is refused only if it declares an ID that is absent from all four.
pub proof fn an_id_is_refused_only_if_nobody_answers_for_it(
    storage: StorageModel,
    transmissions: Map<TransmissionID, Seq<u8>>,
    aborted: Seq<TransmissionID>,
    id: TransmissionID,
)
    ensures
        storage.transmissions.contains_key(id) ==> storage.accepts(id, transmissions, aborted),
        transmissions.contains_key(id) ==> storage.accepts(id, transmissions, aborted),
        aborted.contains(id) ==> storage.accepts(id, transmissions, aborted),
        storage.aborted.contains_key(id) ==> storage.accepts(id, transmissions, aborted),
        !storage.accepts(id, transmissions, aborted) <==> {
            &&& !storage.transmissions.contains_key(id)
            &&& !transmissions.contains_key(id)
            &&& !aborted.contains(id)
            &&& !storage.aborted.contains_key(id)
        },
{
}

/// A batch each of whose IDs is stored is never refused, and nothing is missing, whatever is provided
/// for it or declared as aborted.
pub proof fn a_batch_of_stored_transmissions_is_accepted(
    storage: StorageModel,
    declared: Seq<TransmissionID>,
    transmissions: Map<TransmissionID, Seq<u8>>,
    aborted: Seq<TransmissionID>,
)
    requires
        forall|i: int|
            0 <= i < declared.len() ==> storage.transmissions.contains_key(#[trigger] declared[i]),
    ensures
        forall|i: int|
            0 <= i < declared.len() ==> storage.accepts(
                #[trigger] declared[i],
                transmissions,
                aborted,
            ),
        storage.missing(declared, transmissions) == Map::<TransmissionID, Seq<u8>>::empty(),
{
    assert forall|id: TransmissionID| !(#[trigger] storage.missing(
        declared,
        transmissions,
    ).contains_key(id)) by {
        if declared.contains(id) {
            let i = choose|i: int| 0 <= i < declared.len() && declared[i] == id;
            assert(storage.transmissions.contains_key(declared[i]));
        }
    }
    assert(storage.missing(declared, transmissions) =~= Map::<
        TransmissionID,
        Seq<u8>,
    >::empty());
}

/// What is missing is provided, byte for byte, is declared, and is not stored; and whatever is
/// declared and provided but not stored is missing.
pub proof fn what_is_missing_was_provided_and_is_not_stored(
    storage: StorageModel,
    declared: Seq<TransmissionID>,
    transmissions: Map<TransmissionID, Seq<u8>>,
    id: TransmissionID,
)
    ensures
        storage.missing(declared, transmissions).contains_key(id) ==> {
            &&& exists|i: int| 0 <= i < declared.len() && #[trigger] declared[i] == id
            &&& !storage.transmissions.contains_key(id)
            &&& transmissions.contains_key(id)
            &&& storage.missing(declared, transmissions)[id] == transmissions[id]
        },
        forall|i: int|
            0 <= i < declared.len() && #[trigger] declared[i] == id && transmissions.contains_key(
                id,
            ) ==> storage.transmissions.contains_key(id) || storage.missing(
                declared,
                transmissions,
            ).contains_key(id),
{
}

/// Once what was missing for a batch is inserted, nothing is missing for it any longer, and every ID
/// that it declares is accepted without anything being provided or declared as aborted.
pub proof fn an_inserted_batch_needs_nothing_more(
    storage: StorageModel,
    certificate_id: Field,
    declared: Seq<TransmissionID>,
    aborted: Seq<TransmissionID>,
    transmissions: Map<TransmissionID, Seq<u8>>,
    id: TransmissionID,
)
    requires
        declared.contains(id),
        storage.accepts(id, transmissions, aborted),
    ensures
        ({
            let missing = storage.missing(declared, transmissions);
            let after = storage.insert(certificate_id, declared, aborted, missing);
            &&& !after.missing(declared, transmissions).contains_key(id)
            &&& after.accepts(id, Map::empty(), Seq::empty())
        }),
{
}

/// An insertion adds references to its own certificate alone: what refers to an entry by another
/// certificate is the same before and after.
pub proof fn an_insertion_leaves_other_certificates_alone(
    storage: StorageModel,
    certificate_id: Field,
    other: Field,
    declared: Seq<TransmissionID>,
    aborted: Seq<TransmissionID>,
    missing: Map<TransmissionID, Seq<u8>>,
    id: TransmissionID,
)
    requires
        certificate_id != other,
    ensures
        ({
            let after = storage.insert(certificate_id, declared, aborted, missing);
            &&& (after.transmissions.contains_key(id) && after.transmissions[id].1.contains(other))
                == (storage.transmissions.contains_key(id) && storage.transmissions[id].1.contains(
                other,
            ))
            &&& (after.aborted.contains_key(id) && after.aborted[id].contains(other)) == (
            storage.aborted.contains_key(id) && storage.aborted[id].contains(other))
        }),
{
}

/// An insertion counts its certificate against the transmission of an ID exactly if the ID is
/// declared and its bytes are stored or handed over, beside what was counted before; and it makes
/// exactly those IDs retrievable that are declared with their bytes, beside those that were.
pub proof fn an_insertion_counts_its_certificate_against_the_transmissions_it_declares(
    storage: StorageModel,
    certificate_id: Field,
    declared: Seq<TransmissionID>,
    aborted: Seq<TransmissionID>,
    missing: Map<TransmissionID, Seq<u8>>,
    id: TransmissionID,
)
    ensures
        ({
            let after = storage.insert(certificate_id, declared, aborted, missing);
            let was_stored = storage.transmissions.contains_key(id);
            let was_counted = was_stored && storage.transmissions[id].1.contains(certificate_id);
            let has_bytes = was_stored || missing.contains_key(id);
            &&& (after.transmissions.contains_key(id)
                && after.transmissions[id].1.contains(certificate_id)) <==> was_counted || (
            declared.contains(id) && has_bytes)
            &&& after.transmissions.contains_key(id) <==> was_stored || (declared.contains(id)
                && missing.contains_key(id))
            &&& after.transmissions.contains_key(id) && !was_stored ==> after.transmissions[id]
                == (missing[id], set![certificate_id])
        }),
{
    let after = storage.insert(certificate_id, declared, aborted, missing);
    if after.transmissions.contains_key(id) && !storage.transmissions.contains_key(id) {
        assert(after.transmissions[id].1 =~= set![certificate_id]);
    }
}

/// An insertion counts its certificate against the aborted entry of an ID exactly if the ID is
/// declared as aborted, or it is declared, recorded as aborted, and has no bytes, beside what was
/// counted before; and it records exactly those IDs as aborted that are declared so, beside those
/// that were.
pub proof fn an_insertion_counts_its_certificate_against_the_aborted_ids(
    storage: StorageModel,
    certificate_id: Field,
    declared: Seq<TransmissionID>,
    aborted: Seq<TransmissionID>,
    missing: Map<TransmissionID, Seq<u8>>,
    id: TransmissionID,
)
    ensures
        ({
            let after = storage.insert(certificate_id, declared, aborted, missing);
            let was_aborted = storage.aborted.contains_key(id);
            let was_counted = was_aborted && storage.aborted[id].contains(certificate_id);
            let has_bytes = storage.transmissions.contains_key(id) || missing.contains_key(id);
            &&& (after.aborted.contains_key(id) && after.aborted[id].contains(certificate_id))
                <==> was_counted || aborted.contains(id) || (declared.contains(id) && was_aborted
                && !has_bytes)
            &&& after.aborted.contains_key(id) <==> was_aborted || aborted.contains(id)
            &&& after.aborted.contains_key(id) && !was_aborted ==> after.aborted[id] == set![
                certificate_id,
            ]
        }),
{
    let after = storage.insert(certificate_id, declared, aborted, missing);
    if after.aborted.contains_key(id) && !storage.aborted.contains_key(id) {
        assert(after.aborted[id] =~= set![certificate_id]);
    }
}

/// After a removal no entry of a declared ID refers to the certificate; what refers to an entry by
/// another certificate, and every entry of an ID that is not declared, is the same before and after;
/// and a transmission that is kept has its bytes.
pub proof fn a_removal_takes_one_reference_from_the_declared_ids(
    storage: StorageModel,
    certificate_id: Field,
    declared: Seq<TransmissionID>,
    certificate: Field,
    id: TransmissionID,
)
    ensures
        ({
            let after = storage.remove(certificate_id, declared);
            let taken = declared.contains(id) && certificate == certificate_id;
            &&& (after.transmissions.contains_key(id) && after.transmissions[id].1.contains(
                certificate,
            )) <==> {
                &&& storage.transmissions.contains_key(id)
                &&& storage.transmissions[id].1.contains(certificate)
                &&& !taken
            }
            &&& (after.aborted.contains_key(id) && after.aborted[id].contains(certificate)) <==> {
                &&& storage.aborted.contains_key(id)
                &&& storage.aborted[id].contains(certificate)
                &&& !taken
            }
            &&& after.transmissions.contains_key(id) ==> {
                &&& storage.transmissions.contains_key(id)
                &&& after.transmissions[id].0 == storage.transmissions[id].0
            }
            &&& after.aborted.contains_key(id) ==> storage.aborted.contains_key(id)
            &&& !declared.contains(id) ==> {
                &&& storage.transmissions.contains_key(id) ==> after.transmissions.contains_key(id)
                    && after.transmissions[id] == storage.transmissions[id]
                &&& storage.aborted.contains_key(id) ==> after.aborted.contains_key(id)
                    && after.aborted[id] == storage.aborted[id]
            }
        }),
{
    if storage.transmissions.contains_key(id) && storage.transmissions[id].1.contains(certificate)
        && certificate != certificate_id {
        assert(storage.transmissions[id].1.remove(certificate_id).contains(certificate));
    }
    if storage.aborted.contains_key(id) && storage.aborted[id].contains(certificate) && certificate
        != certificate_id {
        assert(storage.aborted[id].remove(certificate_id).contains(certificate));
    }
}

} // verus!
