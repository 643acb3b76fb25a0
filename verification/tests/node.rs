use snarkos_node::callback_handle::{CallbackError, CallbackHandle};
use snarkos_node::file_path::FilePath;
use snarkos_node::network::{
    bootstrap_peers, get_repo_commit_hash, log_repo_sha_comparison, shorten_snarkos_sha, NetworkName,
};
use snarkos_node::node_data::{
    jwt_secret_file, legacy_current_proposal_cache_file, NodeDataDir,
    CURRENT_PROPOSAL_CACHE_FILE, GATEWAY_PEER_CACHE_FILE, LEGACY_GATEWAY_PEER_CACHE_FILE,
    LEGACY_ROUTER_PEER_CACHE_FILE, ROUTER_PEER_CACHE_FILE,
};
use snarkos_node::node_type::{NodeType, NodeTypeError};
use snarkos_node::signals::{surplus_live_tasks, SignalHandler, SimpleStoppable, Stoppable};
use std::path::{Path, PathBuf};

const ALL: [NodeType; 4] =
    [NodeType::Client, NodeType::Prover, NodeType::Validator, NodeType::BootstrapClient];

#[test]
fn every_variant_round_trips_through_bytes() {
    for node_type in ALL {
        let bytes = node_type.to_bytes_le();
        assert_eq!(NodeType::read_le(&bytes).unwrap(), node_type);
    }
}

#[test]
fn the_wire_discriminants_are_pinned() {
    assert_eq!(NodeType::Client.to_bytes_le(), [0]);
    assert_eq!(NodeType::Prover.to_bytes_le(), [1]);
    assert_eq!(NodeType::Validator.to_bytes_le(), [2]);
    assert_eq!(NodeType::BootstrapClient.to_bytes_le(), [3]);
}

#[test]
fn each_discriminant_decodes_to_its_own_variant() {
    for (discriminant, expected) in ALL.iter().enumerate() {
        let decoded = NodeType::read_le(&[discriminant as u8][..]).unwrap();
        assert_eq!(decoded, *expected);
    }
}

#[test]
fn an_unknown_discriminant_is_rejected() {
    for discriminant in [ALL.len() as u8, 100, u8::MAX] {
        let error = NodeType::read_le(&[discriminant][..]).unwrap_err();
        assert_eq!(error, NodeTypeError::Invalid(discriminant));
        assert_eq!(
            error.to_string(),
            format!("Invalid node type: expected 0..=3, got {discriminant}.")
        );
    }
}

#[test]
fn a_truncated_encoding_is_rejected() {
    assert!(NodeType::read_le(&[][..]).is_err());
}

#[test]
fn a_node_type_is_appended_to_what_was_written() {
    let mut bytes = vec![9];
    NodeType::Validator.write_le(&mut bytes);
    assert_eq!(bytes, [9, 2]);
}

#[test]
fn the_predicates_agree_with_the_variant() {
    assert!(NodeType::Client.is_client());
    assert!(NodeType::Prover.is_prover());
    assert!(NodeType::Validator.is_validator());
    // Each predicate matches exactly one variant.
    for node_type in ALL {
        let matches = [node_type.is_client(), node_type.is_prover(), node_type.is_validator()]
            .iter()
            .filter(|m| **m)
            .count();
        assert!(matches <= 1, "{} matched more than one predicate", node_type.to_string());
    }
}

#[test]
fn a_bootstrap_client_is_not_a_client_by_the_predicates() {
    assert!(!NodeType::BootstrapClient.is_client());
    assert!(!NodeType::BootstrapClient.is_prover());
    assert!(!NodeType::BootstrapClient.is_validator());
}

#[test]
fn every_variant_has_a_distinct_description_and_display_form() {
    let descriptions: Vec<String> =
        ALL.iter().map(|node_type| node_type.description().to_string()).collect();
    let displays: Vec<String> = ALL.iter().map(|node_type| node_type.to_string()).collect();
    for list in [&descriptions, &displays] {
        for (i, entry) in list.iter().enumerate() {
            assert!(!entry.is_empty());
            assert!(!list[i + 1..].contains(entry), "duplicate label: {entry}");
        }
    }
}

fn path(text: &str) -> FilePath {
    FilePath::from_text(text)
}

/// The path as the system has it.
fn system_path(path: &FilePath) -> PathBuf {
    PathBuf::from(String::from_utf8(path.as_bytes().to_vec()).unwrap())
}

#[test]
fn the_cache_filenames_are_pinned() {
    assert_eq!(ROUTER_PEER_CACHE_FILE, "router-peer-cache");
    assert_eq!(GATEWAY_PEER_CACHE_FILE, "gateway-peer-cache");
    assert_eq!(CURRENT_PROPOSAL_CACHE_FILE, "current-proposal-cache");
    assert_eq!(LEGACY_ROUTER_PEER_CACHE_FILE, "cached_router_peers");
    assert_eq!(LEGACY_GATEWAY_PEER_CACHE_FILE, "cached_gateway_peers");
}

#[test]
fn the_legacy_filenames_are_distinct_from_the_current_ones() {
    assert_ne!(ROUTER_PEER_CACHE_FILE, LEGACY_ROUTER_PEER_CACHE_FILE);
    assert_ne!(GATEWAY_PEER_CACHE_FILE, LEGACY_GATEWAY_PEER_CACHE_FILE);
    assert_ne!(ROUTER_PEER_CACHE_FILE, GATEWAY_PEER_CACHE_FILE);
}

#[test]
fn every_path_is_rooted_at_the_data_dir() {
    let dir = NodeDataDir::new(path("/var/lib/snarkos"));
    for path in [
        dir.router_peer_cache_path(),
        dir.gateway_peer_cache_path(),
        dir.current_proposal_cache_path(),
        dir.dev_committee_state_path(),
    ] {
        let path = system_path(&path);
        let directory = system_path(dir.path());
        assert!(path.starts_with(&directory), "{path:?} escaped the data dir");
        assert_eq!(path.parent().unwrap(), directory);
    }
}

#[test]
fn each_cache_path_is_a_distinct_file() {
    let dir = NodeDataDir::new(path("/var/lib/snarkos"));
    assert_ne!(dir.router_peer_cache_path(), dir.gateway_peer_cache_path());
    assert_ne!(dir.router_peer_cache_path(), dir.current_proposal_cache_path());
    assert_ne!(dir.gateway_peer_cache_path(), dir.current_proposal_cache_path());
}

#[test]
fn the_jwt_secret_path_agrees_with_the_bare_filename_helper() {
    let dir = NodeDataDir::new(path("/var/lib/snarkos"));
    let address = "aleo1example";
    assert_eq!(dir.jwt_secret_path(address), dir.path().join(&jwt_secret_file(address)));
    assert_eq!(
        system_path(&dir.jwt_secret_path(address)),
        system_path(dir.path()).join(system_path(&jwt_secret_file(address)))
    );
}

#[test]
fn the_jwt_secret_filename_is_scoped_to_the_address() {
    assert_eq!(jwt_secret_file("aleo1abc"), path("jwt_secret_aleo1abc.txt"));
    assert_ne!(jwt_secret_file("aleo1abc"), jwt_secret_file("aleo1def"));
}

#[test]
fn the_legacy_proposal_cache_filename_switches_on_dev() {
    assert_eq!(
        legacy_current_proposal_cache_file(1, Some(3)),
        path(".current-proposal-cache-1-3")
    );
    assert_eq!(legacy_current_proposal_cache_file(1, None), path("current-proposal-cache-1"));
    // Distinct dev indices must not collide.
    assert_ne!(
        legacy_current_proposal_cache_file(1, Some(0)),
        legacy_current_proposal_cache_file(1, Some(1))
    );
    // Neither must distinct networks.
    assert_ne!(
        legacy_current_proposal_cache_file(0, None),
        legacy_current_proposal_cache_file(1, None)
    );
}

#[test]
fn test_data_dirs_are_separated_by_dev_index() {
    assert_eq!(NodeDataDir::new_test(None).path(), &path(".node-data-test"));
    assert_eq!(NodeDataDir::new_test(Some(2)).path(), &path(".node-data-test-2"));
    // Two dev nodes running side by side must not share a data dir.
    assert_ne!(NodeDataDir::new_test(Some(0)), NodeDataDir::new_test(Some(1)));
    assert_ne!(NodeDataDir::new_test(None), NodeDataDir::new_test(Some(0)));
}

#[test]
fn development_data_dirs_are_absolute_and_separated_by_network_and_index() {
    let base = path("/home/node");
    let first = NodeDataDir::new_development(&base, 1, 0);
    let second = NodeDataDir::new_development(&base, 1, 1);
    let other_network = NodeDataDir::new_development(&base, 2, 0);
    assert!(system_path(first.path()).is_absolute());
    assert_eq!(system_path(first.path()).file_name().unwrap(), ".node-data-1-0");
    assert_ne!(first, second);
    assert_ne!(first, other_network);
}

#[test]
fn joined_paths_are_those_of_the_system() {
    for directory in ["/var/lib", "/var/lib/", "relative", "/", "", ".", "./", "..", "a//"] {
        for file in ["file", "a/b", "/file", "", "."] {
            let joined = path(directory).join(&path(file));
            let expected = Path::new(directory).join(file);
            assert_eq!(joined.as_bytes(), expected.to_str().unwrap().as_bytes());
        }
    }
}

#[test]
fn paths_are_equal_where_those_of_the_system_are() {
    let texts = [
        "", ".", "./", "./.", "..", "/", "//", "/.", "a", "a/", "a/.", "./a", "././a", "/a", "//a",
        "/./a", "a/b", "a//b", "a/./b", "a/../b", ".a", "a.", "a/b/",
    ];
    for left in texts {
        for right in texts {
            assert_eq!(
                path(left) == path(right),
                Path::new(left) == Path::new(right),
                "{left:?} {right:?}"
            );
            assert_eq!(
                NodeDataDir::new(path(left)) == NodeDataDir::new(path(right)),
                Path::new(left) == Path::new(right)
            );
        }
    }
}

#[test]
fn a_path_need_not_be_text() {
    let dir = NodeDataDir::new(FilePath::new(vec![b'/', 0xff]));
    assert_eq!(dir.router_peer_cache_path().as_bytes(), b"/\xff/router-peer-cache");
}

#[test]
fn a_fresh_handle_holds_no_callback() {
    let handle = CallbackHandle::<u8>::default();
    assert!(handle.get().is_none());
    assert!(handle.get_ref().is_none());
}

#[test]
fn a_callback_can_be_set_once_and_read_back() {
    let mut handle = CallbackHandle::default();
    assert!(handle.set("callback".to_string()).is_ok());
    assert_eq!(handle.get(), Some("callback".to_string()));
    assert_eq!(handle.get_ref().as_deref(), Some("callback"));
}

#[test]
fn setting_a_second_callback_is_an_error() {
    let mut handle = CallbackHandle::default();
    handle.set("first".to_string()).unwrap();
    let error = handle.set("second".to_string()).unwrap_err();
    assert_eq!(error, CallbackError::AlreadySet);
    assert_eq!(error.to_string(), "Callback was already set");
}

#[test]
fn a_rejected_set_has_still_replaced_the_callback() {
    let mut handle = CallbackHandle::default();
    handle.set("first".to_string()).unwrap();
    let _ = handle.set("second".to_string());
    assert_eq!(handle.get(), Some("second".to_string()));
}

#[test]
fn clearing_makes_the_handle_settable_again() {
    let mut handle = CallbackHandle::default();
    handle.set("first".to_string()).unwrap();
    handle.clear();
    assert!(handle.get().is_none());
    assert!(handle.set("second".to_string()).is_ok());
    assert_eq!(handle.get(), Some("second".to_string()));
}

#[test]
fn clearing_an_empty_handle_is_a_no_op() {
    let mut handle = CallbackHandle::<u8>::default();
    handle.clear();
    handle.clear();
    assert!(handle.get().is_none());
}

#[test]
fn a_simple_stoppable_starts_running_and_latches_when_stopped() {
    let mut stoppable = SimpleStoppable::new();
    assert!(!stoppable.is_stopped());
    stoppable.stop();
    assert!(stoppable.is_stopped());
    // Stopping is idempotent; a second fatal error during shutdown must not misbehave.
    stoppable.stop();
    assert!(stoppable.is_stopped());
}

#[test]
fn a_signal_handler_can_be_stopped_without_a_signal() {
    let mut handler = SignalHandler::new();
    assert!(!handler.is_stopped());
    handler.stop();
    assert!(handler.is_stopped());
}

#[test]
fn stopping_a_signal_handler_twice_is_harmless() {
    let mut handler = SignalHandler::new();
    handler.stop();
    handler.stop();
    assert!(handler.is_stopped());
}

#[test]
fn waiting_returns_once_the_handler_is_stopped() {
    let mut handler = SignalHandler::new();
    assert!(handler.can_wait());
    assert!(!handler.wait_for_signals());
    assert!(!handler.take_notice());
    handler.stop();
    // The wait must resolve off the manual stop, not only off a real signal.
    assert!(handler.take_notice());
    assert!(handler.is_stopped());
    // The wait is granted once, and the waiting task is told once.
    assert!(!handler.can_wait());
    handler.stop();
    assert!(!handler.take_notice());
}

#[test]
fn waiting_returns_immediately_if_already_stopped() {
    let mut handler = SignalHandler::new();
    handler.stop();
    assert!(handler.can_wait());
    assert!(handler.wait_for_signals());
    assert!(handler.is_stopped());
    assert!(!handler.take_notice());
}

#[test]
fn a_notice_is_left_by_the_first_stop_alone() {
    let mut handler = SignalHandler::new();
    assert!(handler.notify_stop());
    assert!(!handler.notify_stop());
    let mut handler = SignalHandler::new();
    assert!(!handler.wait_for_signals());
    handler.stop();
    assert!(!handler.notify_stop());
    assert!(handler.take_notice());
    assert!(!handler.take_notice());
}

#[test]
fn the_watcher_of_file_descriptors_is_not_a_surplus_task() {
    assert_eq!(surplus_live_tasks(0, true), None);
    assert_eq!(surplus_live_tasks(1, true), None);
    assert_eq!(surplus_live_tasks(3, true), Some(2));
    assert_eq!(surplus_live_tasks(1, false), Some(1));
    assert_eq!(surplus_live_tasks(0, false), None);
}

#[test]
fn the_parameters_of_the_networks_are_those_of_the_protocol() {
    for (network, id, name) in [
        (NetworkName::Mainnet, 0, "mainnet"),
        (NetworkName::Testnet, 1, "testnet"),
        (NetworkName::Canary, 2, "canary"),
    ] {
        assert_eq!(NetworkName::from_id(id), Some(network));
        let parameters = network.parameters();
        assert_eq!(parameters.id, id);
        assert_eq!(parameters.short_name, name);
        assert_eq!(parameters.max_solutions, 4);
        assert_eq!(parameters.max_inputs, 16);
        assert_eq!(parameters.num_blocks_per_epoch, 360);
        assert_eq!(parameters.max_transaction_size, 2_304_000);
    }
    assert_eq!(NetworkName::from_id(3), None);
}

#[test]
fn bootstrap_peers_are_those_of_the_network() {
    assert_eq!(
        bootstrap_peers(0, false, &None),
        ["35.231.67.219:4130", "34.73.195.196:4130", "34.23.225.202:4130", "34.148.16.111:4130"]
    );
    assert_eq!(bootstrap_peers(1, false, &None)[0], "34.138.104.159:4130");
    assert_eq!(bootstrap_peers(2, false, &None)[3], "35.231.106.26:4130");
    // Unrecognized networks contain no bootstrap peers.
    assert!(bootstrap_peers(3, false, &None).is_empty());
    // What is configured counts in development only.
    let configured = Some("127.0.0.1:4130,127.0.0.1:4131".to_string());
    assert_eq!(bootstrap_peers(0, true, &configured), ["127.0.0.1:4130", "127.0.0.1:4131"]);
    assert!(bootstrap_peers(0, true, &None).is_empty());
    assert_eq!(bootstrap_peers(0, false, &configured).len(), 4);
}

#[test]
fn a_commit_hash_is_forty_bytes_long() {
    let sha = "0123456789abcdef0123456789abcdef01234567";
    assert_eq!(get_repo_commit_hash(Some(sha)).unwrap().as_slice(), sha.as_bytes());
    assert!(get_repo_commit_hash(Some("0123")).is_none());
    assert!(get_repo_commit_hash(None).is_none());
}

#[test]
fn commit_hashes_are_shortened() {
    let sha = get_repo_commit_hash(Some("0123456789abcdef0123456789abcdef01234567"));
    assert_eq!(shorten_snarkos_sha(&sha).as_str(), "0123456");
    assert_eq!(shorten_snarkos_sha(&None).as_str(), "unknown snarkOS SHA");
    assert_eq!(shorten_snarkos_sha(&Some([0xff; 40])).as_str(), "unknown snarkOS SHA");
}

#[test]
fn commit_hashes_are_compared() {
    let ours = get_repo_commit_hash(Some("0123456789abcdef0123456789abcdef01234567"));
    let theirs = get_repo_commit_hash(Some("1123456789abcdef0123456789abcdef01234567"));
    let line = |ours, theirs| log_repo_sha_comparison("1.2.3.4:4130", ours, theirs, "[Router]");
    let same = line(&ours, &ours);
    assert!(same.starts_with(
        "[Router] Peer '1.2.3.4:4130' uses snarkOS@0123456789abcdef0123456789abcdef01234567"
    ));
    assert_ne!(line(&ours, &theirs), same);
    assert_ne!(line(&None, &ours), same);
    assert_ne!(line(&ours, &None), same);
}
