use snarkos_node::rest::answers::{
    after_reason, after_transaction, amendment_count, answer_at, blocks_until_next_epoch,
    confirmed_block_hash, delegators_error, flag_is_set, get_sync_status, invalid_body,
    known_location, mapping_error, participation_committee, program_error, program_for_edition,
    require_all, require_consensus, require_sync_leniency, staking_reward_error, view_error,
    view_timestamp, Answer, BftSyncMode, CdnSync, ReasonStage, ReasonStep, TaskError,
};
use snarkos_node::rest::blocks::{
    block_hash_error, block_named, parse_block_id, range_task_error, serve_block, serve_height,
    serve_range, BlockId, BlockRead, RangeAnswer, RangeItem,
};
use snarkos_node::rest::cache::{BlockCache, BLOCK_CACHE_SIZE};
use snarkos_node::rest::error::{
    RestError, BAD_REQUEST, INTERNAL_SERVER_ERROR, NOT_FOUND, SERVICE_UNAVAILABLE,
    UNPROCESSABLE_ENTITY,
};
use snarkos_node::rest::requests::{
    check_block_range, collect_entries, de_csv, map_missing_resource_error,
    map_missing_transaction_error, parse_commitments, parse_historical_mapping_keys,
    parse_view_inputs, BlockRange, EntryKind, MAX_BLOCK_HASH_RANGE, MAX_BLOCK_HEADER_RANGE,
    MAX_BLOCK_RANGE, MAX_BLOCK_TRANSACTIONS_RANGE, MAX_KEYS_PER_REQUEST, MAX_STATE_ROOT_RANGE,
};
use snarkvm::prelude::{MainnetV0, Network, ToBytes};
use std::str::FromStr;

const MAX: u32 = 50;

fn range(start: u32, end: u32) -> BlockRange {
    BlockRange { start, end }
}

fn chain(messages: &[&str]) -> Vec<String> {
    messages.iter().map(|message| message.to_string()).collect()
}

/// The routes that serve something of each block of a range, but for the blocks themselves.
const PROJECTIONS: [RangeItem; 4] =
    [RangeItem::Hash, RangeItem::Header, RangeItem::StateRoot, RangeItem::Transactions];

/// Serves a range from a ledger that holds only the block at height 0.
fn serve(item: RangeItem, range: BlockRange) -> Result<Vec<String>, RestError> {
    let mut answer = RangeAnswer::begin(item, range)?;
    loop {
        let lookup = match (answer.next(), item) {
            (None, _) => return Ok(answer.finish()),
            (Some(0), _) => Ok(Some("genesis".to_string())),
            (Some(_), RangeItem::StateRoot) => Ok(None),
            (Some(height), _) => Err(vec![format!("Missing block hash for block {height}")]),
        };
        answer.take(lookup)?;
    }
}

#[test]
fn missing_resource_errors_map_to_not_found() {
    for message in [
        "Missing block hash for block 10",
        "Block 10 does not exist in storage",
        "Failed to find the transition ID for the given input or output ID '123field'",
    ] {
        let err = map_missing_resource_error(chain(&[message]));
        assert_eq!(err.status(), NOT_FOUND);
        assert_eq!(err.to_string(), message);
    }
}

#[test]
fn non_missing_resource_errors_remain_internal_server_error() {
    let message = "disk I/O failed";
    let err = map_missing_resource_error(chain(&[message]));
    assert_eq!(err.status(), INTERNAL_SERVER_ERROR);
    assert_eq!(err.to_string(), message);
}

#[test]
fn context_does_not_hide_a_missing_resource() {
    let err = map_missing_resource_error(chain(&["Failed to get", "Missing block hash"]));
    assert_eq!(err.status(), NOT_FOUND);
    // A transaction lookup is judged by its outermost message only.
    let err = map_missing_transaction_error(chain(&["Failed to get", "Missing transaction"]));
    assert_eq!(err.status(), INTERNAL_SERVER_ERROR);
    let err = map_missing_transaction_error(chain(&["Missing transaction"]));
    assert_eq!(err.status(), NOT_FOUND);
}

#[test]
fn accepts_a_range_within_the_maximum() {
    assert_eq!(check_block_range(range(10, 20), MAX, "blocks").unwrap(), (10, 20));
}

#[test]
fn accepts_a_range_of_exactly_the_maximum() {
    assert_eq!(
        check_block_range(range(10, 10 + MAX), MAX, "blocks").unwrap(),
        (10, 10 + MAX)
    );
}

#[test]
fn accepts_an_empty_range() {
    assert_eq!(check_block_range(range(10, 10), MAX, "blocks").unwrap(), (10, 10));
}

#[test]
fn rejects_an_inverted_range() {
    let err = check_block_range(range(20, 10), MAX, "blocks").unwrap_err();
    assert_eq!(err.status(), BAD_REQUEST);
    assert_eq!(err.to_string(), "Invalid block range");
}

#[test]
fn rejects_a_range_over_the_maximum() {
    let err = check_block_range(range(10, 11 + MAX), MAX, "blocks").unwrap_err();
    assert_eq!(err.status(), BAD_REQUEST);
    assert_eq!(
        err.to_string(),
        "Cannot request more than 50 blocks per call (requested 51)"
    );
}

#[test]
fn rejects_a_range_spanning_the_whole_height_space() {
    let err = check_block_range(range(0, u32::MAX), MAX, "blocks").unwrap_err();
    assert_eq!(err.status(), BAD_REQUEST);
}

const BLOCK_HASH_BYTES: u32 = 67;
const STATE_ROOT_BYTES: u32 = 67;
const BLOCK_HEADER_BYTES: u32 = 1_040;
const BLOCK_BYTES: u32 = 337_511;

#[test]
fn each_maximum_bounds_its_response_to_at_most_one_block() {
    let largest_get_blocks_response = MAX_BLOCK_RANGE * BLOCK_BYTES;
    for (name, max, item_bytes) in [
        ("hashes", MAX_BLOCK_HASH_RANGE, BLOCK_HASH_BYTES),
        ("headers", MAX_BLOCK_HEADER_RANGE, BLOCK_HEADER_BYTES),
        ("stateRoots", MAX_STATE_ROOT_RANGE, STATE_ROOT_BYTES),
    ] {
        let largest_response = max * item_bytes;
        assert!(
            largest_response <= BLOCK_BYTES,
            "the {name} maximum can serve {largest_response} bytes, more than one block"
        );
        assert!(largest_response < largest_get_blocks_response);
        let too_wide = BLOCK_BYTES / item_bytes + 1;
        assert!(too_wide * item_bytes > BLOCK_BYTES);
        assert!(max <= BLOCK_BYTES / item_bytes, "the {name} maximum is already over the limit");
    }
}

const HEAVIEST_GET_BLOCKS_RESPONSE_BYTES: u32 = 28_068_594;
const HEAVIEST_TRANSACTIONS_RESPONSE_BYTES: [(u32, u32); 4] =
    [(50, 10_247_221), (160, 25_736_904), (176, 27_927_850), (320, 47_465_514)];

#[test]
fn the_transactions_maximum_stays_within_a_get_blocks_response() {
    let heaviest = HEAVIEST_TRANSACTIONS_RESPONSE_BYTES
        .iter()
        .find(|(max, _)| *max == MAX_BLOCK_TRANSACTIONS_RANGE)
        .map(|(_, bytes)| *bytes)
        .expect("this maximum has not been measured against mainnet");
    assert!(heaviest <= HEAVIEST_GET_BLOCKS_RESPONSE_BYTES);
}

#[test]
fn each_maximum_improves_on_fetching_whole_blocks() {
    for (name, max) in [
        ("hashes", MAX_BLOCK_HASH_RANGE),
        ("headers", MAX_BLOCK_HEADER_RANGE),
        ("stateRoots", MAX_STATE_ROOT_RANGE),
        ("transactions", MAX_BLOCK_TRANSACTIONS_RANGE),
    ] {
        assert!(
            max > MAX_BLOCK_RANGE,
            "the {name} maximum is no better than fetching whole blocks"
        );
    }
}

#[test]
fn block_hashes_returns_the_hashes_in_the_range() {
    assert_eq!(serve(RangeItem::Hash, range(0, 1)).unwrap(), ["genesis"]);
}

#[test]
fn block_headers_returns_the_headers_in_the_range() {
    assert_eq!(serve(RangeItem::Header, range(0, 1)).unwrap(), ["genesis"]);
}

#[test]
fn block_state_roots_returns_the_state_roots_in_the_range() {
    assert_eq!(serve(RangeItem::StateRoot, range(0, 1)).unwrap(), ["genesis"]);
}

#[test]
fn block_transactions_returns_the_transactions_in_the_range() {
    assert_eq!(serve(RangeItem::Transactions, range(0, 1)).unwrap(), ["genesis"]);
}

#[test]
fn an_empty_range_returns_an_empty_array() {
    for item in PROJECTIONS {
        assert!(serve(item, range(0, 0)).unwrap().is_empty(), "{item:?} rejected an empty range");
        assert!(serve(item, range(7, 7)).unwrap().is_empty());
    }
}

#[test]
fn a_range_past_the_tip_is_not_found() {
    for item in PROJECTIONS {
        let error = serve(item, range(0, 2)).unwrap_err();
        assert_eq!(error.status(), NOT_FOUND, "{item:?} did not report a missing height");
    }
    let error = serve(RangeItem::StateRoot, range(0, 2)).unwrap_err();
    assert_eq!(error.to_string(), "Missing state root for block 1");
    // A fault is not a missing height.
    let fault = serve_height::<String>(RangeItem::Hash, 3, Err(chain(&["disk I/O failed"])));
    assert_eq!(fault.unwrap_err().status(), INTERNAL_SERVER_ERROR);
    let fault = serve_height::<String>(RangeItem::StateRoot, 3, Err(chain(&["Missing root"])));
    assert_eq!(fault.unwrap_err().status(), INTERNAL_SERVER_ERROR);
}

#[test]
fn an_inverted_range_is_rejected() {
    for item in PROJECTIONS {
        assert_eq!(serve(item, range(10, 0)).unwrap_err().status(), BAD_REQUEST);
    }
}

#[test]
fn a_range_over_the_maximum_is_rejected() {
    for (item, over_max) in [
        (RangeItem::Hash, 5_001),
        (RangeItem::Header, 321),
        (RangeItem::StateRoot, 5_001),
        (RangeItem::Transactions, 161),
        (RangeItem::Block, 51),
    ] {
        let error = serve(item, range(0, over_max)).unwrap_err();
        assert_eq!(error.status(), BAD_REQUEST);
        assert!(error.to_string().contains("Cannot request more than"));
    }
}

#[test]
fn a_range_at_the_maximum_is_accepted() {
    for (item, max) in [
        (RangeItem::Hash, 5_000),
        (RangeItem::Header, 320),
        (RangeItem::StateRoot, 5_000),
        (RangeItem::Transactions, 160),
    ] {
        let error = serve(item, range(0, max)).unwrap_err();
        assert_eq!(error.status(), NOT_FOUND, "{item:?} rejected a range at its maximum");
        assert!(!error.to_string().contains("Cannot request more than"));
    }
}

#[test]
fn a_range_is_served_in_order() {
    let mut answer = RangeAnswer::begin(RangeItem::Block, range(5, 8)).unwrap();
    for height in 5..8 {
        assert_eq!(answer.next(), Some(height));
        answer.take(Ok(Some(height * 10))).unwrap();
    }
    assert_eq!(answer.next(), None);
    assert_eq!(answer.finish(), [50, 60, 70]);
}

#[test]
fn a_range_is_served_whole_or_not_at_all() {
    let found = |text: &str| Ok(Some(text.to_string()));
    let missing = |height: u32| Err(vec![format!("Missing block {height}")]);
    let served = serve_range(RangeItem::Block, range(3, 5), vec![found("a"), found("b")]);
    assert_eq!(served.unwrap(), ["a", "b"]);
    let lookups = vec![found("a"), missing(4), missing(5)];
    let error = serve_range(RangeItem::Block, range(3, 6), lookups).unwrap_err();
    assert_eq!(error.status(), NOT_FOUND);
    assert_eq!(error.to_string(), "Missing block 4");
    let error = serve_range::<String>(RangeItem::Block, range(0, 51), vec![]).unwrap_err();
    assert_eq!(error.status(), BAD_REQUEST);
}

#[test]
fn a_range_whose_task_fails_is_named() {
    for (item, context) in [
        (RangeItem::Block, "Failed to get blocks '1..3'"),
        (RangeItem::Hash, "Failed to get block hashes '1..3'"),
        (RangeItem::Header, "Failed to get block headers '1..3'"),
        (RangeItem::Transactions, "Failed to get transactions for blocks '1..3'"),
        (RangeItem::StateRoot, "Failed to get state roots '1..3'"),
    ] {
        let error = range_task_error(item, range(1, 3), chain(&["cancelled"]));
        assert_eq!(error.status(), INTERNAL_SERVER_ERROR);
        assert_eq!(error.chain, [context, "cancelled"]);
    }
}

#[test]
fn a_malformed_block_identifier_is_a_bad_request() {
    let error = parse_block_id("not-a-height-or-hash").unwrap_err();
    assert_eq!(error.status(), BAD_REQUEST);
    assert_eq!(
        error.to_string(),
        "invalid input: neither a block height nor a block hash"
    );
}

#[test]
fn a_block_is_named_by_its_height_or_its_hash() {
    assert_eq!(parse_block_id("0").unwrap(), BlockId::Height(0));
    assert_eq!(parse_block_id("4294967295").unwrap(), BlockId::Height(u32::MAX));
    assert_eq!(parse_block_id("+7").unwrap(), BlockId::Height(7));
    assert!(parse_block_id("4294967296").is_err());
    assert!(parse_block_id("-1").is_err());
    assert!(parse_block_id("").is_err());
    let text = "ab1jsexppseyf8f9ymgqxmalnehwnhk75pv4agv7vsdl4nudvayy5rscjnfpx";
    let hash = <MainnetV0 as Network>::BlockHash::from_str(text).unwrap();
    let bytes = hash.to_bytes_le().unwrap();
    let low = u128::from_le_bytes(bytes[..16].try_into().unwrap());
    let high = u128::from_le_bytes(bytes[16..].try_into().unwrap());
    assert_eq!(parse_block_id(text).unwrap(), BlockId::Hash((low, high)));
    // A height is preferred.
    assert_eq!(block_named("12", Some((1, 2))).unwrap(), BlockId::Height(12));
    assert_eq!(block_named("x", Some((1, 2))).unwrap(), BlockId::Hash((1, 2)));
}

#[test]
fn a_missing_block_is_not_found_rather_than_a_fault() {
    let error = block_hash_error(chain(&["Missing block hash for block 1"]));
    assert_eq!(error.status(), NOT_FOUND);
    assert_eq!(error.to_string(), "Failed to get a block's hash");
    assert_eq!(block_hash_error(chain(&["disk"])).status(), INTERNAL_SERVER_ERROR);
    let error = program_error("nonexistent.aleo", chain(&["whatever"]));
    assert_eq!(error.status(), NOT_FOUND);
    assert_eq!(error.chain, ["Failed to find program `nonexistent.aleo`", "whatever"]);
}

#[test]
fn a_block_is_served_and_cached() {
    let mut cache = BlockCache::new();
    let hash = (1, 2);
    let absent = serve_block(&mut cache, "5", hash, BlockRead::Absent).unwrap_err();
    assert_eq!((absent.status(), absent.to_string().as_str()), (NOT_FOUND, "Couldn't find block 5"));
    let failed =
        serve_block(&mut cache, "5", hash, BlockRead::Failed("panicked".to_string())).unwrap_err();
    assert_eq!(failed.status(), INTERNAL_SERVER_ERROR);
    assert_eq!(failed.to_string(), "tokio error: panicked");
    assert_eq!(cache.get(&hash), None);
    let found = serve_block(&mut cache, "5", hash, BlockRead::Found("{}".to_string())).unwrap();
    assert_eq!(found, "{}");
    assert_eq!(cache.get(&hash), Some("{}".to_string()));
}

#[test]
fn the_block_cache_evicts_the_least_recently_used() {
    let mut cache = BlockCache::new();
    for i in 0..BLOCK_CACHE_SIZE as u128 {
        cache.put((i, 0), i.to_string());
    }
    // Reading the oldest makes it the most recent.
    assert_eq!(cache.get(&(0, 0)), Some("0".to_string()));
    cache.put((1_000, 0), "new".to_string());
    assert_eq!(cache.get(&(0, 0)), Some("0".to_string()));
    assert_eq!(cache.get(&(1, 0)), None);
    assert_eq!(cache.get(&(2, 0)), Some("2".to_string()));
    assert_eq!(cache.get_or_insert((2, 0), "other".to_string()), "2");
    assert_eq!(cache.get_or_insert((1, 0), "other".to_string()), "other");
    assert_eq!(cache.get(&(1, 0)), Some("other".to_string()));
}

#[test]
fn parse_historical_mapping_keys_rejects_empty() {
    let err = parse_historical_mapping_keys(&vec![]).unwrap_err();
    assert_eq!(err.status(), UNPROCESSABLE_ENTITY);
    assert_eq!(err.to_string(), "No keys provided");
}

#[test]
fn parse_historical_mapping_keys_rejects_too_many() {
    let keys = vec![String::from("1field"); MAX_KEYS_PER_REQUEST + 1];
    let err = parse_historical_mapping_keys(&keys).unwrap_err();
    assert_eq!(err.status(), UNPROCESSABLE_ENTITY);
    assert_eq!(err.to_string(), "Too many keys provided (max: 128, got: 129)");
    let keys = vec![String::from("1field"); MAX_KEYS_PER_REQUEST];
    assert_eq!(parse_historical_mapping_keys(&keys).unwrap().len(), MAX_KEYS_PER_REQUEST);
}

#[test]
fn parse_historical_mapping_keys_rejects_invalid_key_with_index() {
    let keys = vec![String::from("1field"), String::from("not_a_plaintext")];
    let err = parse_historical_mapping_keys(&keys).unwrap_err();
    assert_eq!(err.status(), UNPROCESSABLE_ENTITY);
    assert!(err.to_string().contains("Invalid key at index 1"));
}

#[test]
fn keys_are_reprinted() {
    let keys = vec![String::from("1_0field"), String::from("{a:1u8,b:2u8}")];
    assert_eq!(
        parse_historical_mapping_keys(&keys).unwrap(),
        ["10field", "{\n  a: 1u8,\n  b: 2u8\n}"]
    );
}

#[test]
fn view_inputs_are_values() {
    let inputs = vec![String::from("10u64"), String::from("1_0field")];
    assert_eq!(parse_view_inputs(&inputs).unwrap(), ["10u64", "10field"]);
    assert!(parse_view_inputs(&vec![]).unwrap().is_empty());
    let err = parse_view_inputs(&vec![String::from("?")]).unwrap_err();
    assert_eq!(err.status(), UNPROCESSABLE_ENTITY);
    assert_eq!(err.to_string(), "Invalid input at index 0: ?");
    assert_eq!(invalid_body("EOF").to_string(), "Invalid request body: EOF");
    assert_eq!(invalid_body("EOF").status(), UNPROCESSABLE_ENTITY);
}

#[test]
fn commitments_are_bounded() {
    let err = parse_commitments(&vec![], 16).unwrap_err();
    assert_eq!(err.to_string(), "No commitments provided");
    let err = parse_commitments(&vec![String::from("1field"); 17], 16).unwrap_err();
    assert_eq!(err.status(), UNPROCESSABLE_ENTITY);
    assert_eq!(err.to_string(), "Too many commitments provided (max: 16, got: 17)");
    let err = parse_commitments(&vec![String::from("x")], 16).unwrap_err();
    assert_eq!(err.status(), INTERNAL_SERVER_ERROR);
    assert_eq!(err.chain[0], "Unable to parse commitments");
    assert_eq!(err.chain[1], "Invalid commitment: x");
    assert_eq!(parse_commitments(&vec![String::from("1_0field")], 16).unwrap(), ["10field"]);
}

#[test]
fn the_first_entry_that_cannot_be_read_is_reported() {
    let entries = chain(&["a", "b", "c"]);
    let reads = vec![Ok("A".to_string()), Err(chain(&["bad b"])), Err(chain(&["bad c"]))];
    let err = collect_entries(EntryKind::Key, &entries, reads).unwrap_err();
    assert_eq!(err.chain, ["Invalid key at index 1: b", "bad b"]);
    let reads = vec![Ok("A".to_string()), Ok("B".to_string()), Ok("C".to_string())];
    assert_eq!(collect_entries(EntryKind::Input, &entries, reads).unwrap(), ["A", "B", "C"]);
}

#[test]
fn a_list_has_commas_between_its_entries() {
    assert_eq!(de_csv("a, b ,c"), ["a", "b", "c"]);
    assert_eq!(de_csv("a,,"), ["a", "", ""]);
    assert_eq!(de_csv(" a "), ["a"]);
    assert!(de_csv("").is_empty());
    assert!(de_csv(" \t\n").is_empty());
}

#[test]
fn routes_needing_consensus_are_unavailable_without_it() {
    let error = require_consensus(false).unwrap_err();
    assert_eq!(error.status(), SERVICE_UNAVAILABLE);
    assert_eq!(error.to_string(), "Route isn't available for this node type");
    assert!(require_consensus(true).is_ok());
}

#[test]
fn the_sync_status_names_the_source() {
    let status = get_sync_status(CdnSync::Syncing(9), None, true, 5, Some(7), 2);
    assert_eq!((status.sync_mode, status.cdn_height, status.is_synced), ("cdn", Some(9), false));
    assert_eq!((status.ledger_height, status.p2p_height), (5, Some(7)));
    assert_eq!((status.outstanding_block_requests, status.bft_sync_mode), (2, None));
    for cdn in [CdnSync::Unused, CdnSync::Done] {
        let status = get_sync_status(cdn, Some(BftSyncMode::Fast), true, 5, None, 0);
        assert_eq!((status.sync_mode, status.cdn_height, status.is_synced), ("p2p", None, true));
        assert_eq!(status.bft_sync_mode, Some("fast"));
    }
    let status = get_sync_status(CdnSync::Done, Some(BftSyncMode::Dag), false, 5, None, 0);
    assert_eq!((status.bft_sync_mode, status.is_synced), (Some("dag"), false));
}

#[test]
fn metadata_are_answered_if_asked_for() {
    assert!(flag_is_set(Some(true)));
    assert!(!flag_is_set(Some(false)));
    assert!(!flag_is_set(None));
    assert_eq!(answer_at(Some(true), "x", 5), Answer::AtHeight("x", 5));
    assert_eq!(answer_at(None, "x", 5), Answer::Plain("x"));
}

#[test]
fn a_transaction_is_located_as_far_as_it_is_known() {
    assert_eq!(known_location(Ok(Some(1)), Some(Ok(5))), (Some(1), Some(5)));
    assert_eq!(known_location(Ok(Some(1)), Some(Err(chain(&["x"])))), (Some(1), None));
    assert_eq!(known_location::<u8>(Ok(None), None), (None, None));
    assert_eq!(known_location::<u8>(Err(chain(&["x"])), None), (None, None));
    // A confirmed transaction must have a block.
    assert_eq!(confirmed_block_hash("at1x", Ok(Some(1))).unwrap(), 1);
    let error = confirmed_block_hash::<u8>("at1x", Ok(None)).unwrap_err();
    assert_eq!(error.status(), INTERNAL_SERVER_ERROR);
    assert_eq!(error.to_string(), "Block hash not found for transaction at1x");
    let error = confirmed_block_hash::<u8>("at1x", Err(chain(&["disk"]))).unwrap_err();
    assert_eq!(error.to_string(), "disk");
}

#[test]
fn the_reason_for_a_rejection_is_looked_for_under_every_id() {
    let id = "at1x";
    let found = after_reason(ReasonStage::Given, id, Some("why".to_string()));
    assert!(matches!(found, ReasonStep::Found(reason) if reason == "why"));
    assert!(matches!(
        after_reason(ReasonStage::Given, id, None),
        ReasonStep::FindTransaction(ReasonStage::Unconfirmed)
    ));
    assert!(matches!(
        after_transaction(ReasonStage::Unconfirmed, id, true),
        ReasonStep::ReadReason(ReasonStage::Unconfirmed)
    ));
    assert!(matches!(
        after_transaction(ReasonStage::Unconfirmed, id, false),
        ReasonStep::FindTransaction(ReasonStage::Confirmed)
    ));
    assert!(matches!(
        after_reason(ReasonStage::Unconfirmed, id, None),
        ReasonStep::FindTransaction(ReasonStage::Confirmed)
    ));
    for step in [
        after_reason(ReasonStage::Confirmed, id, None),
        after_transaction(ReasonStage::Confirmed, id, false),
    ] {
        match step {
            ReasonStep::Missing(error) => {
                assert_eq!(error.status(), NOT_FOUND);
                assert_eq!(
                    error.to_string(),
                    "Rejection reason not found for transaction at1x"
                );
            }
            other => panic!("{other:?}"),
        }
    }
}

#[test]
fn a_program_is_of_an_edition() {
    assert_eq!(program_for_edition("a.aleo", 1, Ok(Some("p"))).unwrap(), "p");
    let error = program_for_edition::<u8>("a.aleo", 1, Ok(None)).unwrap_err();
    assert_eq!(error.status(), NOT_FOUND);
    assert_eq!(error.to_string(), "No program `a.aleo` exists for edition 1");
    let error = program_for_edition::<u8>("a.aleo", 1, Err(chain(&["disk"]))).unwrap_err();
    assert_eq!(error.status(), INTERNAL_SERVER_ERROR);
    assert_eq!(error.chain, ["Failed get program `a.aleo` for edition 1", "disk"]);
    assert_eq!(amendment_count(Some(3)), 3);
    assert_eq!(amendment_count(None), 0);
}

#[test]
fn all_values_of_a_mapping_must_be_asked_for() {
    assert!(require_all(Some(true)).is_ok());
    for all in [None, Some(false)] {
        let error = require_all(all).unwrap_err();
        assert_eq!(error.status(), BAD_REQUEST);
        assert_eq!(
            error.to_string(),
            "Invalid query parameter. At this time, 'all=true' must be included"
        );
    }
    let error = mapping_error(TaskError::Run(chain(&["disk"])));
    assert_eq!(error.chain, ["Unable to read mapping", "disk"]);
    let error = mapping_error(TaskError::Join(chain(&["panicked", "x"])));
    assert_eq!(error.chain, ["Tokio error: panicked"]);
    assert_eq!(error.status(), INTERNAL_SERVER_ERROR);
}

#[test]
fn delegators_are_not_answered_while_syncing() {
    assert!(require_sync_leniency(true).is_ok());
    let error = require_sync_leniency(false).unwrap_err();
    assert_eq!(error.status(), SERVICE_UNAVAILABLE);
    assert_eq!(error.to_string(), "Unable to request delegators (node is syncing)");
    let error = delegators_error(TaskError::Run(chain(&["disk"])));
    assert_eq!(error.chain, ["Unable to request delegators", "disk"]);
    let error = delegators_error(TaskError::Join(chain(&["panicked"])));
    assert_eq!(error.chain, ["Tokio error", "panicked"]);
}

#[test]
fn a_committee_must_be_there() {
    assert_eq!(participation_committee(7, Ok(Some("c"))).unwrap(), "c");
    let error = participation_committee::<u8>(7, Ok(None)).unwrap_err();
    assert_eq!(error.status(), NOT_FOUND);
    assert_eq!(error.to_string(), "No committee found for round 7");
    let error = participation_committee::<u8>(7, Err(chain(&["disk"]))).unwrap_err();
    assert_eq!(error.status(), INTERNAL_SERVER_ERROR);
    let error = staking_reward_error("aleo1x", 5, chain(&["disk"]));
    assert_eq!(error.status(), NOT_FOUND);
    assert_eq!(
        error.chain,
        ["Could not load the staking reward for aleo1x from block '5'", "disk"]
    );
}

#[test]
fn epochs_are_counted_down() {
    assert_eq!(blocks_until_next_epoch(0, 360), 360);
    assert_eq!(blocks_until_next_epoch(1, 360), 359);
    assert_eq!(blocks_until_next_epoch(359, 360), 1);
    assert_eq!(blocks_until_next_epoch(360, 360), 360);
}

#[test]
fn a_view_knows_the_time_from_a_height_on() {
    assert_eq!(view_timestamp(9, Some(10), 77), None);
    assert_eq!(view_timestamp(10, Some(10), 77), Some(77));
    assert_eq!(view_timestamp(0, None, 77), Some(77));
    let error = view_error("a.aleo", "v", TaskError::Run(chain(&["no such view"])));
    assert_eq!(error.status(), BAD_REQUEST);
    assert_eq!(
        error.chain,
        ["Failed to evaluate view 'v' for 'a.aleo' at the latest height", "no such view"]
    );
    let error = view_error("a.aleo", "v", TaskError::Join(chain(&["panicked"])));
    assert_eq!(error.status(), INTERNAL_SERVER_ERROR);
    assert_eq!(error.to_string(), "Tokio error: panicked");
}
