use indexmap::{IndexMap, IndexSet};
use snarkos_node::storage::collections::{Field, ProvidedMap, TransmissionID};
use snarkos_node::storage::memory::BFTMemoryService;
use snarkos_node::storage::service::{BatchHeader, StorageError, StorageService};

fn sample_transmission_id(seed: u128) -> TransmissionID {
    (1, 1_000 + seed, u128::MAX - seed, 7 * seed)
}

fn sample_field(seed: u128) -> Field {
    (seed, u128::MAX - seed)
}

fn ids(list: &[TransmissionID]) -> IndexSet<TransmissionID> {
    list.iter().copied().collect()
}

fn given(list: &[(TransmissionID, &[u8])]) -> ProvidedMap {
    list.iter().map(|(id, payload)| (*id, payload.to_vec())).collect::<IndexMap<_, _>>()
}

fn none() -> IndexSet<TransmissionID> {
    IndexSet::new()
}

fn record_as_aborted(service: &mut BFTMemoryService, id: TransmissionID, seed: u128) {
    service.insert_transmissions(sample_field(seed), none(), ids(&[id]), given(&[]));
}

#[test]
fn a_new_service_holds_nothing() {
    let service = BFTMemoryService::new();
    let id = sample_transmission_id(1);
    assert!(!service.contains_transmission(id));
    assert!(!service.contains_retrievable_transmission(id));
    assert!(!service.contains_aborted_transmission(id));
    assert!(service.get_transmission(id).is_none());
    assert!(service.as_hashmap().is_empty());
    assert!(BFTMemoryService::default().as_hashmap().is_empty());
}

#[test]
fn an_inserted_transmission_is_retrievable() {
    let mut service = BFTMemoryService::new();
    let id = sample_transmission_id(1);
    service.insert_transmissions(sample_field(1), ids(&[id]), none(), given(&[(id, b"payload")]));
    assert!(service.contains_transmission(id));
    assert!(service.contains_retrievable_transmission(id));
    assert_eq!(service.get_transmission(id), Some(b"payload".to_vec()));
}

#[test]
fn a_transmission_survives_until_its_last_certificate_is_removed() {
    let mut service = BFTMemoryService::new();
    let id = sample_transmission_id(1);
    let (first, second) = (sample_field(1), sample_field(2));
    // Two certificates referencing one transmission, as happens when the primary processes
    // batches from several peers that all hold the same transaction.
    service.insert_transmissions(first, ids(&[id]), none(), given(&[(id, b"payload")]));
    service.insert_transmissions(second, ids(&[id]), none(), given(&[]));
    let entries = service.as_hashmap();
    assert_eq!(entries.len(), 1);
    assert_eq!(entries[0].0, id);
    assert_eq!(entries[0].1 .0, b"payload".to_vec());
    assert_eq!(entries[0].1 .1.len(), 2);
    // Dropping one reference must not drop the transmission...
    service.remove_transmissions(&first, &ids(&[id]));
    assert!(service.contains_transmission(id));
    assert!(service.contains_retrievable_transmission(id));
    // ...but dropping the last one must.
    service.remove_transmissions(&second, &ids(&[id]));
    assert!(!service.contains_transmission(id));
    assert!(!service.contains_retrievable_transmission(id));
    assert!(service.get_transmission(id).is_none());
}

#[test]
fn a_stored_transmission_is_not_overwritten_by_a_later_insert() {
    let mut service = BFTMemoryService::new();
    let id = sample_transmission_id(1);
    service.insert_transmissions(sample_field(1), ids(&[id]), none(), given(&[(id, b"original")]));
    service.insert_transmissions(
        sample_field(2),
        ids(&[id]),
        none(),
        given(&[(id, b"replacement")]),
    );
    assert_eq!(service.get_transmission(id), Some(b"original".to_vec()));
}

#[test]
fn an_aborted_transmission_id_is_contained_but_has_no_payload() {
    let mut service = BFTMemoryService::new();
    let id = sample_transmission_id(1);
    service.insert_transmissions(sample_field(1), none(), ids(&[id]), given(&[]));
    // The asymmetry is deliberate: an aborted ID is known to storage, but there is no
    // transmission to hand back for it.
    assert!(service.contains_transmission(id));
    assert!(service.get_transmission(id).is_none());
    assert!(service.as_hashmap().is_empty());
}

#[test]
fn an_aborted_transmission_id_is_recorded_but_has_no_payload() {
    let mut service = BFTMemoryService::new();
    let id = sample_transmission_id(1);
    record_as_aborted(&mut service, id, 1);
    assert!(service.contains_aborted_transmission(id));
    assert!(!service.contains_retrievable_transmission(id));
    assert!(service.get_transmission(id).is_none());
    assert!(service.as_hashmap().is_empty());
}

#[test]
fn aborted_transmission_ids_are_reference_counted_too() {
    let mut service = BFTMemoryService::new();
    let id = sample_transmission_id(1);
    let (first, second) = (sample_field(1), sample_field(2));
    for certificate_id in [first, second] {
        service.insert_transmissions(certificate_id, none(), ids(&[id]), given(&[]));
    }
    service.remove_transmissions(&first, &ids(&[id]));
    assert!(service.contains_transmission(id));
    assert!(service.contains_aborted_transmission(id));
    service.remove_transmissions(&second, &ids(&[id]));
    assert!(!service.contains_transmission(id));
    assert!(!service.contains_aborted_transmission(id));
}

#[test]
fn removing_an_unrelated_certificate_leaves_the_transmission_in_place() {
    let mut service = BFTMemoryService::new();
    let id = sample_transmission_id(1);
    service.insert_transmissions(sample_field(1), ids(&[id]), none(), given(&[(id, b"payload")]));
    service.remove_transmissions(&sample_field(2), &ids(&[id]));
    assert!(service.contains_transmission(id));
    assert!(service.contains_retrievable_transmission(id));
}

#[test]
fn removing_from_an_empty_service_is_a_no_op() {
    let mut service = BFTMemoryService::new();
    service.remove_transmissions(&sample_field(1), &ids(&[sample_transmission_id(1)]));
    assert!(service.as_hashmap().is_empty());
}

#[test]
fn containment_queries_distinguish_stored_from_aborted_ids() {
    let mut service = BFTMemoryService::new();
    let (stored_id, aborted_id, unknown_id) =
        (sample_transmission_id(1), sample_transmission_id(2), sample_transmission_id(3));
    service.insert_transmissions(
        sample_field(1),
        ids(&[stored_id]),
        ids(&[aborted_id]),
        given(&[(stored_id, b"payload")]),
    );
    assert!(service.contains_retrievable_transmission(stored_id));
    assert!(!service.contains_aborted_transmission(stored_id));
    assert!(!service.contains_retrievable_transmission(aborted_id));
    assert!(service.contains_aborted_transmission(aborted_id));
    assert!(!service.contains_retrievable_transmission(unknown_id));
    assert!(!service.contains_aborted_transmission(unknown_id));
}

#[test]
fn an_already_aborted_id_is_counted_against_a_later_certificate() {
    let mut service = BFTMemoryService::new();
    let id = sample_transmission_id(1);
    let (aborting, later) = (sample_field(1), sample_field(2));
    service.insert_transmissions(aborting, none(), ids(&[id]), given(&[]));
    service.insert_transmissions(later, ids(&[id]), none(), given(&[]));
    service.remove_transmissions(&aborting, &ids(&[id]));
    assert!(service.contains_aborted_transmission(id));
    service.remove_transmissions(&later, &ids(&[id]));
    assert!(!service.contains_aborted_transmission(id));
}

#[test]
fn an_unknown_undeliverable_id_is_not_recorded_as_aborted() {
    let mut service = BFTMemoryService::new();
    let id = sample_transmission_id(1);
    service.insert_transmissions(sample_field(1), ids(&[id]), none(), given(&[]));
    assert!(!service.contains_aborted_transmission(id));
    assert!(!service.contains_retrievable_transmission(id));
    assert!(service.as_hashmap().is_empty());
}

#[test]
fn an_id_can_be_aborted_and_retrievable_at_once() {
    let mut service = BFTMemoryService::new();
    let record_both_ways = |service: &mut BFTMemoryService, id: TransmissionID, seed: u128| {
        let (aborting, storing) = (sample_field(seed), sample_field(seed + 1));
        service.insert_transmissions(aborting, none(), ids(&[id]), given(&[]));
        service.insert_transmissions(storing, ids(&[id]), none(), given(&[(id, b"payload")]));
        assert!(service.contains_retrievable_transmission(id));
        assert!(service.contains_aborted_transmission(id));
        assert_eq!(service.get_transmission(id), Some(b"payload".to_vec()));
        (aborting, storing)
    };
    // Dropping the certificate that recorded the abort leaves the transmission retrievable.
    let aborted_first = sample_transmission_id(1);
    let (aborting, _) = record_both_ways(&mut service, aborted_first, 10);
    service.remove_transmissions(&aborting, &ids(&[aborted_first]));
    assert!(service.contains_retrievable_transmission(aborted_first));
    assert!(!service.contains_aborted_transmission(aborted_first));
    assert_eq!(service.get_transmission(aborted_first), Some(b"payload".to_vec()));
    // Dropping the certificate that provided the bytes leaves the aborted entry in place.
    let stored_first = sample_transmission_id(2);
    let (_, storing) = record_both_ways(&mut service, stored_first, 20);
    service.remove_transmissions(&storing, &ids(&[stored_first]));
    assert!(!service.contains_retrievable_transmission(stored_first));
    assert!(service.contains_aborted_transmission(stored_first));
}

#[test]
fn find_missing_transmissions_returns_only_what_storage_lacks() {
    let mut service = BFTMemoryService::new();
    let (stored_id, missing_id) = (sample_transmission_id(1), sample_transmission_id(2));
    service.insert_transmissions(
        sample_field(1),
        ids(&[stored_id]),
        none(),
        given(&[(stored_id, b"stored")]),
    );
    let batch_header = BatchHeader::new(ids(&[stored_id, missing_id]));
    let result = service
        .find_missing_transmissions(
            &batch_header,
            given(&[(stored_id, b"stored"), (missing_id, b"missing")]),
            none(),
        )
        .unwrap();
    assert_eq!(result.len(), 1);
    assert_eq!(result.get(&missing_id), Some(&b"missing".to_vec()));
}

#[test]
fn find_missing_transmissions_accepts_an_aborted_declaration_without_returning_it() {
    let service = BFTMemoryService::new();
    let aborted_id = sample_transmission_id(1);
    let batch_header = BatchHeader::new(ids(&[aborted_id]));
    let result =
        service.find_missing_transmissions(&batch_header, given(&[]), ids(&[aborted_id])).unwrap();
    assert!(result.is_empty());
}

#[test]
fn find_missing_transmissions_accepts_a_declared_aborted_id() {
    let service = BFTMemoryService::new();
    let aborted_id = sample_transmission_id(4);
    let batch_header = BatchHeader::new(ids(&[aborted_id]));
    let result =
        service.find_missing_transmissions(&batch_header, given(&[]), ids(&[aborted_id])).unwrap();
    assert!(result.is_empty());
}

#[test]
fn find_missing_transmissions_accepts_an_already_aborted_id_without_bytes() {
    let mut service = BFTMemoryService::new();
    let aborted_id = sample_transmission_id(1);
    record_as_aborted(&mut service, aborted_id, 1);
    let batch_header = BatchHeader::new(ids(&[aborted_id]));
    let result = service.find_missing_transmissions(&batch_header, given(&[]), none()).unwrap();
    assert!(result.is_empty());
}

#[test]
fn find_missing_transmissions_keeps_provided_bytes_for_an_aborted_id() {
    let mut service = BFTMemoryService::new();
    let id = sample_transmission_id(1);
    record_as_aborted(&mut service, id, 1);
    assert!(service.contains_aborted_transmission(id));
    assert!(service.get_transmission(id).is_none());
    let batch_header = BatchHeader::new(ids(&[id]));
    let missing = service
        .find_missing_transmissions(&batch_header, given(&[(id, b"payload")]), none())
        .unwrap();
    assert_eq!(missing.get(&id), Some(&b"payload".to_vec()));
    service.insert_transmissions(sample_field(2), ids(&[id]), none(), missing);
    assert_eq!(service.get_transmission(id), Some(b"payload".to_vec()));
}

#[test]
fn find_missing_transmissions_rejects_a_declaration_that_is_neither_provided_nor_aborted() {
    let service = BFTMemoryService::new();
    let undeclared_id = sample_transmission_id(1);
    let batch_header = BatchHeader::new(ids(&[undeclared_id]));
    assert!(service.find_missing_transmissions(&batch_header, given(&[]), none()).is_err());
}

#[test]
fn find_missing_transmissions_rejects_an_unprovided_undeclared_id() {
    let service = BFTMemoryService::new();
    let undeclared_id = sample_transmission_id(2);
    let batch_header = BatchHeader::new(ids(&[undeclared_id]));
    let error =
        service.find_missing_transmissions(&batch_header, given(&[]), none()).unwrap_err();
    assert!(matches!(error, StorageError::FailedToProvideTransmission));
    assert_eq!(error.to_string(), "Failed to provide a transmission");
}

/// `insert_transmissions` must return when a declared transmission is neither provided nor aborted.
#[test]
fn insert_transmissions_returns_when_a_transmission_is_neither_provided_nor_aborted() {
    let mut service = BFTMemoryService::new();
    let id = sample_transmission_id(1);
    // Declare a transmission that is neither provided nor aborted.
    service.insert_transmissions(sample_field(1), ids(&[id]), none(), given(&[]));
    let contains = service.contains_transmission(id);
    // The undeliverable transmission is skipped, not recorded as a phantom entry.
    assert!(!contains);
}

#[test]
fn removing_a_certificate_undoes_its_insertion() {
    let mut service = BFTMemoryService::new();
    let (kept, added) = (sample_transmission_id(1), sample_transmission_id(2));
    service.insert_transmissions(sample_field(1), ids(&[kept]), none(), given(&[(kept, b"kept")]));
    let before = service.as_hashmap();
    service.insert_transmissions(
        sample_field(2),
        ids(&[kept, added]),
        none(),
        given(&[(added, b"added")]),
    );
    assert_eq!(service.as_hashmap().len(), 2);
    service.remove_transmissions(&sample_field(2), &ids(&[kept, added]));
    assert_eq!(service.as_hashmap(), before);
}
