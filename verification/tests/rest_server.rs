use snarkos_node::network::NetworkName;
use snarkos_node::rest::answers::TaskError;
use snarkos_node::rest::broadcast::{
    check_solution_limit, check_transaction_size, refuse_solution, refuse_transaction,
    refuse_transaction_body, BodyRejection, Broadcast, BroadcastStep, Submission,
};
use snarkos_node::rest::error::{
    RestError, BAD_REQUEST, INTERNAL_SERVER_ERROR, NON_AUTHORITATIVE_INFORMATION, NOT_FOUND, OK,
    SERVICE_UNAVAILABLE, TOO_MANY_REQUESTS, UNPROCESSABLE_ENTITY,
};
use snarkos_node::rest::history::{
    check_answer, check_declared_length, unavailable, FetchError, HistoryCompat, SnapshotMapping,
    MAX_SNAPSHOT_BYTES,
};
use snarkos_node::rest::limits::{
    admitted, RestVerificationLimits, VerificationLane, VerificationSlots,
};
use snarkos_node::rest::requests::parse_historical_mapping_keys;
use snarkos_node::rest::router::{
    body_limit, build_routes, build_versioned_router, rate_limit, rate_limit_status, Handler,
    Method, RouteOptions,
};
use snarkos_node::rest::snapshots::{
    bonded_stake, cached_mapping, cached_staking_rewards, evaluate_view_at_height_compat,
    history_compat_mapping, new_stake, parsed_snapshot, read_mapping, read_staking_rewards,
    reward_of, snapshot_value, snapshot_values, take_turn, Lookup, SnapshotCache, SnapshotKey, Turn,
};
use snarkos_node::rest::v1::{fmt_id, v1_error_middleware, SerializedRestError, V1_STATUS_CODE};

const UNBONDING: &str = r#"[
  [
    "aleo1qgtvgvzkxqyh0jc7wxv3zjzjcd5epll38uv4wmmxjt8hexjluygqu4ukl2",
    "{\n  microcredits: 31712836548u64,\n  height: 883089u32\n}"
  ],
  [
    "aleo1sdjqhlcm9qltpu74ek0vxewt52zsdmn6swmpjn6m0tp9xf57dvpq740r8j",
    "{\n  microcredits: 10113730488u64,\n  height: 621255u32\n}"
  ]
]"#;

const BONDED: &str = r#"[
  [
    "aleo1qy4qufq03wcph05fdf5aj09ez67vcmmlrzqf0zza352qwaq43gyqt3wdf6",
    "{\n  validator: aleo1vfukg8ky2mhfprw63s0k0hl4vvd8573s6fkn8cv9y0ca6q27eq8qwdnxls,\n  microcredits: 141347021440u64\n}"
  ]
]"#;

const STAKING_REWARDS: &str = r#"{
  "aleo1qy4qufq03wcph05fdf5aj09ez67vcmmlrzqf0zza352qwaq43gyqt3wdf6": [
    "aleo1vfukg8ky2mhfprw63s0k0hl4vvd8573s6fkn8cv9y0ca6q27eq8qwdnxls",
    6477
  ]
}"#;

const MISSING: &str =
    "Could not load mapping 'withdraw' from block '0' — No such file or directory (os error 2)";

const UNBONDING_STAKER: &str = "aleo1sdjqhlcm9qltpu74ek0vxewt52zsdmn6swmpjn6m0tp9xf57dvpq740r8j";
const BONDED_STAKER: &str = "aleo1qy4qufq03wcph05fdf5aj09ez67vcmmlrzqf0zza352qwaq43gyqt3wdf6";
const VALIDATOR: &str = "aleo1vfukg8ky2mhfprw63s0k0hl4vvd8573s6fkn8cv9y0ca6q27eq8qwdnxls";

fn rows(text: &str) -> Vec<(String, String)> {
    let body = text.as_bytes().to_vec();
    read_mapping("http://up", 1_000_000, SnapshotMapping::Unbonding, 200, &body).unwrap()
}

fn rewards(text: &str) -> Vec<(String, (String, u64))> {
    let body = text.as_bytes().to_vec();
    read_staking_rewards("http://up", 1_000_000, 200, &body).unwrap()
}

fn chain(messages: &[&str]) -> Vec<String> {
    messages.iter().map(|message| message.to_string()).collect()
}

fn options() -> RouteOptions {
    RouteOptions {
        consensus: false,
        metrics: false,
        history_compat: false,
        history_staking_rewards: false,
    }
}

fn serialized(message: &str, behind: &[&str]) -> Option<SerializedRestError> {
    Some(SerializedRestError { message: message.to_string(), chain: chain(behind) })
}

#[test]
fn v1_routes_force_internal_server_error() {
    assert_eq!(V1_STATUS_CODE, INTERNAL_SERVER_ERROR);
    for (status, message) in
        [(NOT_FOUND, "missing"), (BAD_REQUEST, "bad"), (SERVICE_UNAVAILABLE, "gone")]
    {
        let body = Some(b"{}".to_vec());
        let replaced = v1_error_middleware(status, &body, serialized(message, &[]));
        assert_eq!(replaced, Some(message.to_string()));
    }
    // The messages behind the first are kept.
    let replaced =
        v1_error_middleware(NOT_FOUND, &Some(vec![]), serialized("outer", &["middle", "inner"]));
    assert_eq!(replaced, Some("outer — middle — inner".to_string()));
    // What was served is passed on.
    assert_eq!(v1_error_middleware(OK, &Some(vec![]), None), None);
    assert_eq!(v1_error_middleware(NON_AUTHORITATIVE_INFORMATION, &None, None), None);
}

#[test]
fn v2_routes_return_specific_errors() {
    let mounts = build_versioned_router(options(), &NetworkName::Mainnet.parameters());
    let v2 = mounts.iter().find(|mount| mount.prefix == "/v2/mainnet").unwrap();
    assert!(!v2.v1_errors);
    for (status, code, message) in [
        (NOT_FOUND, 404, "missing"),
        (BAD_REQUEST, 400, "bad"),
        (SERVICE_UNAVAILABLE, 503, "gone"),
    ] {
        let error = RestError::new(status, message.to_string());
        assert_eq!(error.status(), code);
        assert_eq!(error.to_string(), message);
    }
}

#[test]
fn rate_limiting_is_identifiable_on_v1() {
    let body = Some(b"Too Many Requests! Wait for 0s\n".to_vec());
    let text = v1_error_middleware(TOO_MANY_REQUESTS, &body, None).unwrap();
    assert_eq!(text, "Too Many Requests! Wait for 0s (HTTP 429)");
    assert_eq!(
        v1_error_middleware(TOO_MANY_REQUESTS, &None, None).unwrap(),
        "Failed to convert error (HTTP 429)"
    );
    assert_eq!(
        v1_error_middleware(405, &Some(b"  ".to_vec()), None).unwrap(),
        "Failed to convert error (HTTP 405)"
    );
    // Bytes that are no text do not keep the status from being named.
    assert_eq!(
        v1_error_middleware(500, &Some(vec![0x61, 0xff]), None).unwrap(),
        "a\u{fffd} (HTTP 500)"
    );
    // A body that could not be read holds no error.
    assert_eq!(
        v1_error_middleware(NOT_FOUND, &None, serialized("x", &[])).unwrap(),
        "Failed to convert error (HTTP 404)"
    );
}

#[test]
fn rate_limiting_reports_429_on_v2() {
    assert_eq!(rate_limit_status(true), TOO_MANY_REQUESTS);
    assert_eq!(rate_limit_status(false), INTERNAL_SERVER_ERROR);
    let limit = rate_limit(1);
    assert_eq!((limit.per_nanosecond, limit.burst_size), (1_000_000_000, 1));
    let limit = rate_limit(10);
    assert_eq!((limit.per_nanosecond, limit.burst_size), (100_000_000, 10));
    let limit = rate_limit(1_000_000_000);
    assert_eq!((limit.per_nanosecond, limit.burst_size), (1, 1_000_000_000));
}

#[test]
fn ids_are_cut_short() {
    assert_eq!(fmt_id("0123456789abcdef"), "0123456789abcdef");
    assert_eq!(fmt_id("0123456789abcdefg"), "0123456789abcdef..");
    assert_eq!(fmt_id(""), "");
}

#[test]
fn queued_capacity_is_twice_the_concurrent_limit() {
    let slots = VerificationSlots::new(RestVerificationLimits {
        num_verifying_deploys: 1,
        num_verifying_executions: 3,
        num_verifying_solutions: 4,
    });
    for (lane, queued_capacity) in
        [(&slots.deploys, 2), (&slots.executions, 6), (&slots.solutions, 8)]
    {
        let held: Vec<_> = (0..queued_capacity)
            .map(|_| lane.queued().try_acquire().expect("queue permit"))
            .collect();
        assert!(
            lane.queued().try_acquire().is_err(),
            "queue should be full at {queued_capacity}"
        );
        drop(held);
        assert!(lane.queued().try_acquire().is_ok());
        assert_eq!(lane.concurrent().available_permits(), queued_capacity / 2);
    }
    let permits = |lane: &VerificationLane| lane.concurrent().available_permits();
    assert_eq!(permits(slots.lane_of_transaction(true)), 3);
    assert_eq!(permits(slots.lane_of_transaction(false)), 1);
}

#[test]
fn a_full_verification_queue_is_too_many_requests() {
    let lane = VerificationLane::new(1);
    let first = lane.enqueue().unwrap();
    let _second = lane.enqueue().unwrap();
    let err = lane.enqueue().unwrap_err();
    assert_eq!(err.status(), TOO_MANY_REQUESTS);
    drop(first);
    assert!(lane.enqueue().is_ok());
    assert!(admitted(Some(1)).is_ok());
    assert_eq!(admitted::<u8>(None).unwrap_err().status(), TOO_MANY_REQUESTS);
}

#[test]
fn a_place_in_the_queue_is_one_permit_of_the_queue() {
    let lane = VerificationLane::new(3);
    let permit = lane.enqueue().unwrap();
    assert_eq!(permit.num_permits(), 1);
    assert_eq!(lane.queued().available_permits(), 5);
    assert_eq!(lane.concurrent().available_permits(), 3);
    drop(permit);
    assert_eq!(lane.queued().available_permits(), 6);
    // A lane without room admits nothing.
    assert!(VerificationLane::new(0).enqueue().is_err());
}

#[test]
fn limits_above_the_protocol_maximums_are_rejected() {
    let network = NetworkName::Mainnet.parameters();
    let max = RestVerificationLimits::max(&network);
    assert!(RestVerificationLimits::new(
        &network,
        max.num_verifying_deploys,
        max.num_verifying_executions,
        max.num_verifying_solutions
    )
    .is_ok());
    let deploys = RestVerificationLimits::new(&network, max.num_verifying_deploys + 1, 1, 1);
    assert!(deploys.unwrap_err().contains("num_verifying_deploys"));
    let executions = RestVerificationLimits::new(&network, 1, max.num_verifying_executions + 1, 1);
    assert!(executions.unwrap_err().contains("num_verifying_executions"));
    let solutions = RestVerificationLimits::new(&network, 1, 1, max.num_verifying_solutions + 1);
    assert!(solutions.unwrap_err().contains("num_verifying_solutions"));
}

#[test]
fn the_same_routes_are_served_on_every_prefix_with_different_error_shapes() {
    let network = NetworkName::Mainnet.parameters();
    let mounts = build_versioned_router(options(), &network);
    let shapes: Vec<_> =
        mounts.iter().map(|mount| (mount.prefix.as_str(), mount.v1_errors)).collect();
    assert_eq!(shapes, [("/mainnet", true), ("/v1/mainnet", true), ("/v2/mainnet", false)]);
    for mount in &mounts {
        assert_eq!(mount.routes.len(), build_routes(options()).len());
    }
    assert_eq!(body_limit(&network), 2 * 2_304_000);
}

#[test]
fn routes_are_distinct() {
    for history_compat in [false, true] {
        let routes = build_routes(RouteOptions {
            consensus: true,
            metrics: true,
            history_compat,
            history_staking_rewards: true,
        });
        for (i, route) in routes.iter().enumerate() {
            assert!(!routes[i + 1..]
                .iter()
                .any(|other| other.path == route.path && other.method == route.method));
        }
    }
    let routes = build_routes(options());
    let block = routes.iter().find(|route| route.path == "/block/{height_or_hash}").unwrap();
    assert_eq!((block.method, block.handler), (Method::Get, Handler::GetBlock));
    assert!(!block.authenticated);
    let protected: Vec<_> =
        routes.iter().filter(|route| route.authenticated).map(|route| route.path).collect();
    assert_eq!(protected, ["/node/address", "/program/{id}/mapping/{name}", "/db_backup"]);
}

#[test]
fn routes_depend_on_what_the_node_is() {
    let serves = |options: RouteOptions, handler: Handler| {
        build_routes(options).iter().any(|route| route.handler == handler)
    };
    let validator = RouteOptions { consensus: true, ..options() };
    assert!(!serves(options(), Handler::GetBftConnectionsAll));
    assert!(serves(validator, Handler::GetBftConnectionsAll));
    assert!(!serves(validator, Handler::GetValidatorParticipationScores));
    let measured = RouteOptions { metrics: true, ..validator };
    assert!(serves(measured, Handler::GetValidatorParticipationScores));
    let recording = RouteOptions { history_staking_rewards: true, ..options() };
    assert!(serves(recording, Handler::GetStakingReward));
    let both = RouteOptions { history_compat: true, ..recording };
    assert!(!serves(both, Handler::GetStakingReward));
    assert!(serves(both, Handler::GetStakingRewardCompat));
    assert!(serves(options(), Handler::EvaluateViewLatest));
}

#[test]
fn history_routes_are_absent_without_compatibility_mode() {
    let path = "/program/{id}/mapping/{name}/{key}/history/{height}";
    assert!(!build_routes(options()).iter().any(|route| route.path == path));
    let compat = RouteOptions { history_compat: true, ..options() };
    assert!(build_routes(compat).iter().any(|route| route.path == path));
}

#[test]
fn test_mapping_names() {
    for mapping in SnapshotMapping::all() {
        assert_eq!(SnapshotMapping::from_name(mapping.name()), Some(mapping));
    }
    assert!(SnapshotMapping::from_name("committee").is_none());
    assert!(SnapshotMapping::from_name("account").is_none());
    // The rewards are not addressable as a mapping.
    assert!(SnapshotMapping::from_name("stakingrewards").is_none());
}

#[test]
fn test_snapshot_url() {
    let compat = HistoryCompat::new("https://example.com/", "mainnet");
    assert_eq!(
        compat.snapshot_url(1_000_000, "stakingrewards"),
        "https://example.com/mainnet/block/1000000/history/stakingrewards"
    );
    assert_eq!(
        compat.snapshot_url(7, "unbonding"),
        "https://example.com/mainnet/block/7/history/unbonding"
    );
}

#[test]
fn history_compat_mapping_accepts_only_the_upstream_snapshots() {
    for mapping in SnapshotMapping::all() {
        assert_eq!(history_compat_mapping("credits.aleo", mapping.name()).unwrap(), mapping);
    }
    let err = history_compat_mapping("credits.aleo", "committee").unwrap_err();
    assert_eq!(err.status(), NOT_FOUND);
    assert_eq!(
        err.to_string(),
        format!(
            "History compatibility mode serves only the mappings {:?} of 'credits.aleo'; \
             'credits.aleo/committee' is not available",
            ["bonded", "delegated", "metadata", "unbonding", "withdraw"]
        )
    );
    let err = history_compat_mapping("other.aleo", "bonded").unwrap_err();
    assert_eq!(err.status(), NOT_FOUND);
    assert!(err.to_string().contains("other.aleo/bonded"));
}

#[test]
fn test_concurrent_requests_share_one_fetch() {
    let mut cache = SnapshotCache::new();
    let key = SnapshotKey::mapping(1, SnapshotMapping::Bonded);
    let other = SnapshotKey::mapping(2, SnapshotMapping::Bonded);
    // The first request starts a flight, and two more for the key join it.
    assert!(matches!(cache.begin(key, 1), Lookup::Join(1)));
    assert!(matches!(cache.begin(key, 2), Lookup::Join(1)));
    assert!(matches!(cache.begin(key, 3), Lookup::Join(1)));
    // A request for another key does not.
    assert!(matches!(cache.begin(other, 4), Lookup::Join(4)));
    // The first to get its turn performs the fetch, and the others share its outcome.
    assert!(matches!(take_turn(&None), Turn::Fetch));
    let outcome = Ok("ten".to_string());
    cache.complete(key, 1, &outcome);
    match take_turn(&Some(outcome)) {
        Turn::Shared(Ok(snapshot)) => assert_eq!(snapshot, "ten"),
        turn => panic!("{turn:?}"),
    }
    // Later requests hit the cache, and no flight lingers.
    assert!(matches!(cache.begin(key, 5), Lookup::Cached(snapshot) if snapshot == "ten"));
    assert!(matches!(cache.begin(other, 6), Lookup::Join(4)));
}

#[test]
fn test_concurrent_requests_share_one_failure() {
    let mut cache = SnapshotCache::new();
    let key = SnapshotKey::rewards(1);
    assert!(matches!(cache.begin(key, 1), Lookup::Join(1)));
    assert!(matches!(cache.begin(key, 2), Lookup::Join(1)));
    let outcome = Err(FetchError::NotFound("missing".to_string()));
    cache.complete(key, 1, &outcome);
    assert!(matches!(
        take_turn(&Some(outcome)),
        Turn::Shared(Err(FetchError::NotFound(message))) if message == "missing"
    ));
    // A failure is not cached: the next request fetches again.
    assert!(matches!(cache.begin(key, 3), Lookup::Join(3)));
    cache.complete(key, 3, &Ok("thirty".to_string()));
    assert!(matches!(cache.begin(key, 4), Lookup::Cached(snapshot) if snapshot == "thirty"));
}

#[test]
fn test_cancelled_fetch_leaves_no_flight_behind() {
    let mut cache = SnapshotCache::new();
    let key = SnapshotKey::rewards(1);
    assert!(matches!(cache.begin(key, 1), Lookup::Join(1)));
    cache.land(key, 1);
    // The next request fetches afresh, and the end of the first does not touch its flight.
    assert!(matches!(cache.begin(key, 2), Lookup::Join(2)));
    cache.land(key, 1);
    assert!(matches!(cache.begin(key, 3), Lookup::Join(2)));
}

#[test]
fn snapshots_are_evicted_when_there_are_too_many() {
    let mut cache = SnapshotCache::new();
    for height in 0..257 {
        let key = SnapshotKey::rewards(height);
        assert!(matches!(cache.begin(key, 1), Lookup::Join(1)));
        cache.complete(key, 1, &Ok(height.to_string()));
    }
    assert!(matches!(cache.begin(SnapshotKey::rewards(0), 2), Lookup::Join(2)));
    assert!(matches!(cache.begin(SnapshotKey::rewards(1), 2), Lookup::Cached(_)));
    // A mapping's snapshot is another one.
    let bonded = SnapshotKey::mapping(1, SnapshotMapping::Bonded);
    assert!(matches!(cache.begin(bonded, 3), Lookup::Join(3)));
}

#[test]
fn history_serves_the_value_from_the_upstream_snapshot() {
    let key = parse_historical_mapping_keys(&vec![UNBONDING_STAKER.to_string()]).unwrap();
    assert_eq!(
        snapshot_value(&rows(UNBONDING), &key[0]).as_deref(),
        Some("{\n  microcredits: 10113730488u64,\n  height: 621255u32\n}")
    );
}

#[test]
fn history_answers_null_for_an_absent_key() {
    assert_eq!(snapshot_value(&rows(UNBONDING), BONDED_STAKER), None);
}

#[test]
fn the_last_row_for_a_key_counts() {
    let rows = vec![
        ("a".to_string(), "1".to_string()),
        ("b".to_string(), "2".to_string()),
        ("a".to_string(), "3".to_string()),
    ];
    assert_eq!(snapshot_value(&rows, "a").as_deref(), Some("3"));
    assert_eq!(snapshot_value(&rows, "b").as_deref(), Some("2"));
    assert_eq!(snapshot_value(&vec![], "a"), None);
}

#[test]
fn history_batch_serves_every_key_from_one_snapshot() {
    let keys = chain(&[UNBONDING_STAKER, BONDED_STAKER]);
    let printed = parse_historical_mapping_keys(&keys).unwrap();
    let values = snapshot_values(&rows(UNBONDING), &keys, &printed);
    assert_eq!(values.len(), 2);
    assert_eq!(values[0].0, UNBONDING_STAKER);
    assert_eq!(
        values[0].1.as_deref(),
        Some("{\n  microcredits: 10113730488u64,\n  height: 621255u32\n}")
    );
    assert_eq!(values[1], (BONDED_STAKER.to_string(), None));
}

#[test]
fn history_rejects_what_the_upstream_does_not_record() {
    let body = MISSING.as_bytes().to_vec();
    let error =
        check_answer("http://up", 0, "withdraw", 500, &body).unwrap_err().into_rest_error();
    assert_eq!(error.status(), NOT_FOUND);
    assert_eq!(error.to_string(), "No snapshot of 'withdraw' is recorded for block 0");
    let error = check_answer("http://up", 0, "withdraw", 404, &vec![]);
    assert!(matches!(error, Err(FetchError::NotFound(_))));
    // A view at a past height.
    let error = evaluate_view_at_height_compat("credits.aleo", "anything", 0);
    assert_eq!(error.status(), NOT_FOUND);
    assert_eq!(
        error.to_string(),
        "History compatibility mode cannot evaluate 'credits.aleo/anything' at height 0: views at a \
         past height are not available; use POST /program/credits.aleo/view/anything for the latest \
         height"
    );
}

#[test]
fn an_upstream_that_fails_is_unavailable() {
    assert!(check_answer("http://up", 1, "bonded", 200, &b"[]".to_vec()).is_ok());
    let error = check_answer("http://up", 1, "bonded", 502, &b"x".to_vec())
        .unwrap_err()
        .into_rest_error();
    assert_eq!(error.status(), SERVICE_UNAVAILABLE);
    assert_eq!(
        error.to_string(),
        "The historical data upstream is unavailable: http://up: answered 502 Bad Gateway"
    );
    // The marker counts in a server error only.
    let body = MISSING.as_bytes().to_vec();
    assert!(check_answer("http://up", 1, "bonded", 200, &body).is_ok());
    assert!(matches!(
        check_answer("http://up", 1, "bonded", 400, &body),
        Err(FetchError::Unavailable(_))
    ));
    assert!(check_declared_length("http://up", None).is_ok());
    assert!(check_declared_length("http://up", Some(MAX_SNAPSHOT_BYTES as u64)).is_ok());
    let error = check_declared_length("http://up", Some(MAX_SNAPSHOT_BYTES as u64 + 1));
    assert!(matches!(
        error,
        Err(FetchError::Unavailable(message))
            if message == "http://up: the snapshot exceeds 67108864 bytes"
    ));
    assert!(matches!(
        unavailable("http://up", "timed out").copy(),
        FetchError::Unavailable(message) if message == "http://up: timed out"
    ));
}

#[test]
fn a_snapshot_is_read_from_an_answer() {
    assert_eq!(rows(UNBONDING).len(), 2);
    assert_eq!(rows(UNBONDING), cached_mapping(UNBONDING).unwrap());
    assert_eq!(rewards(STAKING_REWARDS), cached_staking_rewards(STAKING_REWARDS).unwrap());
    // What is no snapshot counts as an upstream that is not available.
    let body = b"<html>".to_vec();
    match read_mapping("http://up", 1, SnapshotMapping::Bonded, 200, &body) {
        Err(FetchError::Unavailable(message)) => assert!(message.starts_with("http://up: expected")),
        other => panic!("{other:?}"),
    }
    assert!(matches!(
        read_staking_rewards("http://up", 1, 200, &body),
        Err(FetchError::Unavailable(_))
    ));
    assert!(cached_mapping(STAKING_REWARDS).is_err());
    assert!(cached_staking_rewards(UNBONDING).is_err());
    // The status counts before the body.
    let body = MISSING.as_bytes().to_vec();
    assert!(matches!(
        read_mapping("http://up", 0, SnapshotMapping::Withdraw, 500, &body),
        Err(FetchError::NotFound(message))
            if message == "No snapshot of 'withdraw' is recorded for block 0"
    ));
    assert!(matches!(
        read_staking_rewards("http://up", 0, 500, &body),
        Err(FetchError::NotFound(message))
            if message == "No snapshot of 'stakingrewards' is recorded for block 0"
    ));
    assert!(matches!(
        parsed_snapshot::<u8>("http://up", Err("bad".to_string())),
        Err(FetchError::Unavailable(message)) if message == "http://up: bad"
    ));
    assert!(matches!(parsed_snapshot("http://up", Ok(5)), Ok(5)));
}

#[test]
fn staking_reward_joins_the_rewards_and_bonded_snapshots() {
    let reward = reward_of(&rewards(STAKING_REWARDS), BONDED_STAKER);
    assert_eq!(reward, Some((VALIDATOR.to_string(), 6477)));
    assert_eq!(new_stake(&rows(BONDED), BONDED_STAKER, 0).unwrap(), 141_347_021_440);
    // A staker with no reward at that height.
    assert_eq!(reward_of(&rewards(STAKING_REWARDS), UNBONDING_STAKER), None);
    // A reward without a stake.
    let error = new_stake(&vec![], BONDED_STAKER, 5).unwrap_err();
    assert_eq!(error.status(), NOT_FOUND);
    assert_eq!(
        error.to_string(),
        format!(
            "The upstream records a reward for {BONDED_STAKER} at block 5 but no bonded stake"
        )
    );
    // A stake that is no amount.
    let odd = vec![("a".to_string(), "{ microcredits: 5u32 }".to_string())];
    let error = new_stake(&odd, "a", 5).unwrap_err();
    assert_eq!(error.status(), INTERNAL_SERVER_ERROR);
    assert_eq!(error.to_string(), "Unexpected bonded stake: 5u32");
    let none = vec![("a".to_string(), "{ other: 5u64 }".to_string())];
    assert_eq!(new_stake(&none, "a", 5).unwrap_err().status(), INTERNAL_SERVER_ERROR);
    assert_eq!(bonded_stake(Ok(Ok(9))).unwrap(), 9);
    assert_eq!(bonded_stake(Err(chain(&["bad"]))).unwrap_err().to_string(), "bad");
}

fn broadcast(submission: Submission, check: bool, is_within_sync_leniency: bool) -> Broadcast {
    Broadcast { submission, check, is_within_sync_leniency, has_consensus: false }
}

#[test]
fn a_submission_is_answered_by_the_flow() {
    for submission in [Submission::Transaction, Submission::Solution] {
        for (check, synced, accepted) in [
            (false, true, OK),
            (false, false, OK),
            (true, true, OK),
            (true, false, NON_AUTHORITATIVE_INFORMATION),
        ] {
            let mut flow = broadcast(submission, check, synced);
            if check {
                assert!(matches!(flow.begin(), BroadcastStep::Verify));
                assert!(matches!(flow.after_verification(None), BroadcastStep::Propagate));
            } else {
                assert!(matches!(flow.begin(), BroadcastStep::Propagate));
            }
            flow.has_consensus = true;
            if check {
                assert!(matches!(flow.after_verification(None), BroadcastStep::Pool));
            } else {
                assert!(matches!(flow.begin(), BroadcastStep::Pool));
            }
            assert!(matches!(flow.after_pool(None), BroadcastStep::Propagate));
            assert!(
                matches!(flow.after_propagation(), BroadcastStep::Accept(status) if status == accepted)
            );
        }
    }
}

#[test]
fn an_invalid_submission_is_refused() {
    for (synced, status) in [(true, UNPROCESSABLE_ENTITY), (false, SERVICE_UNAVAILABLE)] {
        let error = refuse_transaction(synced, chain(&["why"]));
        assert_eq!(error.status(), status);
        assert_eq!(error.chain[1], "why");
        let flow = broadcast(Submission::Transaction, true, synced);
        assert!(matches!(
            flow.after_verification(Some(error)),
            BroadcastStep::Refuse(error) if error.status() == status
        ));
        let id = "solution1qqqqqqqqqq";
        let error = refuse_solution(synced, id, TaskError::Run(chain(&["why"])));
        assert_eq!(error.status(), status);
    }
    let id = "solution1qqqqqqqqqq";
    let error = refuse_solution(true, id, TaskError::Run(chain(&["why"])));
    assert_eq!(error.chain, ["Invalid solution 'solution1qqqqqqq..'", "why"]);
    let error = refuse_solution(false, id, TaskError::Run(chain(&["why"])));
    assert_eq!(
        error.chain,
        ["Unable to validate solution 'solution1qqqqqqq..' (node is syncing)"]
    );
    let error = refuse_solution(false, id, TaskError::Join(chain(&["panicked"])));
    assert_eq!(error.status(), INTERNAL_SERVER_ERROR);
    assert_eq!(error.to_string(), "Tokio error: panicked");
    assert_eq!(refuse_transaction(true, vec![]).to_string(), "Invalid transaction");
    assert_eq!(
        refuse_transaction(false, vec![]).to_string(),
        "Unable to validate transaction (node is syncing)"
    );
}

#[test]
fn what_is_not_admitted_goes_nowhere() {
    for check in [false, true] {
        for synced in [false, true] {
            let mut flow = broadcast(Submission::Solution, check, synced);
            flow.has_consensus = check;
            match flow.begin_solution(true, "solution1qqqqqqqqqq", "aleo1x") {
                BroadcastStep::Refuse(error) => {
                    assert_eq!(error.status(), UNPROCESSABLE_ENTITY);
                    assert_eq!(
                        error.to_string(),
                        "Invalid solution 'solution1qqqqqqq..' - Prover 'aleo1x' has reached their \
                         solution limit for the current epoch"
                    );
                }
                other => panic!("{other:?}"),
            }
            let admitted = flow.begin_solution(false, "solution1qqqqqqqqqq", "aleo1x");
            assert_eq!(matches!(admitted, BroadcastStep::Verify), check);
            assert_eq!(matches!(admitted, BroadcastStep::Propagate), !check);
            let flow = broadcast(Submission::Transaction, check, synced);
            assert!(matches!(
                flow.begin_transaction(101, 100),
                BroadcastStep::Refuse(error) if error.status() == BAD_REQUEST
            ));
            assert_eq!(matches!(flow.begin_transaction(100, 100), BroadcastStep::Verify), check);
        }
    }
}

#[test]
fn a_full_memory_pool_keeps_transactions_only() {
    let refused = || Some(chain(&["full"]));
    let flow = broadcast(Submission::Transaction, false, true);
    assert!(matches!(
        flow.after_pool(refused()),
        BroadcastStep::Refuse(error) if error.status() == INTERNAL_SERVER_ERROR
    ));
    let flow = broadcast(Submission::Solution, false, true);
    assert!(matches!(flow.after_pool(refused()), BroadcastStep::Propagate));
}

#[test]
fn what_cannot_be_submitted_is_refused() {
    let error = refuse_transaction_body(BodyRejection::Data("missing field".to_string()));
    assert_eq!(error.status(), UNPROCESSABLE_ENTITY);
    assert_eq!(error.to_string(), "Invalid transaction data: missing field");
    let other = BodyRejection::Other { status: 415, message: "no JSON".to_string() };
    let error = refuse_transaction_body(other);
    assert_eq!((error.status(), error.to_string().as_str()), (415, "no JSON"));
    assert!(check_transaction_size(100, 100).is_ok());
    let error = check_transaction_size(101, 100).unwrap_err();
    assert_eq!(error.status(), BAD_REQUEST);
    assert_eq!(error.to_string(), "Transaction size exceeds the byte limit");
    assert!(check_solution_limit(false, "s", "p").is_ok());
    let error = check_solution_limit(true, "s", "p").unwrap_err();
    assert_eq!(error.status(), UNPROCESSABLE_ENTITY);
    assert_eq!(
        error.to_string(),
        "Invalid solution 's' - Prover 'p' has reached their solution limit for the current epoch"
    );
}
