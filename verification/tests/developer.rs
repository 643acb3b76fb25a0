use snarkos_node::developer::{
    json_error, request_error, ApiVersion, BuiltTransaction, Developer, DeveloperCommand, Endpoint, Output,
    PollStep, RequestMethod, ResponseKind, RestError, StoreFormat, TransactionKind,
    TransactionStep, DEFAULT_ENDPOINT,
};
use snarkos_node::network::NetworkName;
use snarkvm::console::account::{Address, PrivateKey};
use snarkvm::console::program::{Plaintext, Record};
use snarkvm::console::types::{Field, Scalar};
use snarkvm::prelude::{MainnetV0, Network};
use std::str::FromStr;

const STATIC_QUERY: &str =
    r#"{"state_root": "sr1dz06ur5spdgzkguh4pr42mvft6u3nwsg5drh9rdja9v8jpcz3czsls9geg", "height": 14}"#;

fn endpoint(text: &str) -> Endpoint {
    Developer::parse_endpoint(text).unwrap()
}

#[test]
fn test_parse_query_static() {
    let parsed = Developer::parse_query(STATIC_QUERY).unwrap();
    assert!(parsed.endpoint.is_none());
    let query = parsed.static_query.unwrap();
    assert_eq!(query.height, 14);
    assert_eq!(
        query.state_root,
        "sr1dz06ur5spdgzkguh4pr42mvft6u3nwsg5drh9rdja9v8jpcz3czsls9geg"
    );
    // White space around the query makes no difference.
    let padded = format!("  {STATIC_QUERY}\n");
    assert_eq!(Developer::parse_query(&padded).unwrap().static_query.unwrap().height, 14);
}

#[test]
fn test_parse_query_static_invalid() {
    let json =
        r#"{"invalid_key": "sr1dz06ur5spdgzkguh4pr42mvft6u3nwsg5drh9rdja9v8jpcz3czsls9geg", "height": 14}"#;
    assert!(Developer::parse_query(json).is_err());
    // A state root that is none.
    assert!(Developer::parse_query(r#"{"state_root": "sr1x", "height": 14}"#).is_err());
}

#[test]
fn test_parse_query_rest_defaults_scheme() {
    let parsed = Developer::parse_query("localhost:3030").unwrap();
    assert!(parsed.static_query.is_none());
    assert_eq!(parsed.endpoint.unwrap().url, "http://localhost:3030/");
}

#[test]
fn test_parse_query_rest_keeps_https_path() {
    let parsed = Developer::parse_query(DEFAULT_ENDPOINT).unwrap();
    assert!(parsed.static_query.is_none());
    assert_eq!(parsed.endpoint.unwrap().url, DEFAULT_ENDPOINT);
}

#[test]
fn an_invalid_endpoint_is_refused() {
    let errors = Developer::parse_query("not a url").unwrap_err();
    assert_eq!(errors[0], "Invalid endpoint URL");
    assert_eq!(errors.len(), 2);
    // A path is no endpoint.
    assert!(Developer::parse_query("/v1/mainnet").is_err());
    // Neither is another protocol's.
    assert!(Developer::parse_query("ftp://localhost").is_err());
}

#[test]
fn an_endpoint_without_a_scheme_is_read_again_with_one() {
    let read = |url: &str, path: &str, scheme| Ok((url.to_string(), path.to_string(), scheme));
    let kept = Developer::prepare_endpoint(read("https://a/b", "/b", true), Err("x".to_string()));
    assert_eq!(kept.unwrap().url, "https://a/b");
    let added = Developer::prepare_endpoint(read("a", "", false), read("http://a/", "/", true));
    assert_eq!(added.unwrap().path, "/");
    let failed = Developer::prepare_endpoint(read("a", "", false), Err("bad".to_string()));
    assert_eq!(failed.unwrap_err(), ["bad"]);
}

#[test]
fn test_build_endpoint_default_v1() {
    let base = "http://localhost:3030";
    let (url, api_version) =
        Developer::build_endpoint(&endpoint(base), NetworkName::Mainnet, "transaction/broadcast")
            .unwrap();
    assert_eq!(url, format!("{base}/mainnet/transaction/broadcast"));
    assert_eq!(api_version, ApiVersion::V1);
}

#[test]
fn test_build_endpoint_v1() {
    let base = "http://localhost:3030/v1";
    let (url, api_version) =
        Developer::build_endpoint(&endpoint(base), NetworkName::Mainnet, "transaction/broadcast")
            .unwrap();
    assert_eq!(url, format!("{base}/mainnet/transaction/broadcast"));
    assert_eq!(api_version, ApiVersion::V1);
}

#[test]
fn test_build_endpoint_v2() {
    let base = "http://localhost:3030/v2";
    let (url, api_version) =
        Developer::build_endpoint(&endpoint(base), NetworkName::Mainnet, "transaction/broadcast")
            .unwrap();
    assert_eq!(url, format!("{base}/mainnet/transaction/broadcast"));
    assert_eq!(api_version, ApiVersion::V2);
    // A trailing slash makes no difference.
    let slashed = Developer::build_endpoint(
        &endpoint("http://localhost:3030/v2/"),
        NetworkName::Mainnet,
        "transaction/broadcast",
    );
    assert_eq!(slashed, Ok((url, ApiVersion::V2)));
}

#[test]
fn a_route_cannot_start_with_a_slash() {
    let base = endpoint("http://localhost:3030");
    assert_eq!(
        Developer::build_endpoint(&base, NetworkName::Testnet, "/block/latest"),
        Err("path cannot start with a slash".to_string())
    );
}

#[test]
fn test_custom_endpoint_v1() {
    let text = "http://localhost:3030/v1/mainnet/transaction/broadcast";
    let (parsed, api_version) =
        Developer::parse_custom_endpoint(&endpoint(text), NetworkName::Mainnet);
    assert_eq!(parsed, text);
    assert_eq!(api_version, ApiVersion::V1);
}

#[test]
fn test_custom_endpoint_v2() {
    let text = "http://localhost:3030/v2/mainnet/transaction/broadcast";
    let (parsed, api_version) =
        Developer::parse_custom_endpoint(&endpoint(text), NetworkName::Mainnet);
    assert_eq!(parsed, text);
    assert_eq!(api_version, ApiVersion::V2);
    // A query does not belong to the path.
    let queried = format!("{text}?check_transaction=true");
    let (parsed, api_version) =
        Developer::parse_custom_endpoint(&endpoint(&queried), NetworkName::Mainnet);
    assert_eq!(parsed, queried);
    assert_eq!(api_version, ApiVersion::V2);
    // The network must be the one of the transaction.
    let (_, api_version) = Developer::parse_custom_endpoint(&endpoint(text), NetworkName::Testnet);
    assert_eq!(api_version, ApiVersion::V1);
}

#[test]
fn a_command_runs_for_its_network() {
    let command = |network| Developer { command: DeveloperCommand::Scan, network, verbosity: None };
    assert_eq!(command(0).parse(), Ok((NetworkName::Mainnet, DeveloperCommand::Scan)));
    assert_eq!(command(1).parse(), Ok((NetworkName::Testnet, DeveloperCommand::Scan)));
    assert_eq!(command(2).parse(), Ok((NetworkName::Canary, DeveloperCommand::Scan)));
    assert_eq!(command(7).parse(), Err("Unknown network ID (7)".to_string()));
}

#[test]
fn a_package_is_of_the_specified_program() {
    assert_eq!(Developer::check_package("a.aleo", "a.aleo"), Ok(()));
    assert_eq!(
        Developer::check_package("a.aleo", "b.aleo"),
        Err("The program name in the package does not match the specified program name".to_string())
    );
}

#[test]
fn a_record_is_read_or_decrypted() {
    let private_key = PrivateKey::<MainnetV0>::try_from(Field::from_u64(7)).unwrap();
    let address = Address::try_from(private_key).unwrap();
    let randomizer = Scalar::<MainnetV0>::from_str("5scalar").unwrap();
    let nonce = MainnetV0::g_scalar_multiply(&randomizer);
    let text =
        format!("{{ owner: {address}.private, microcredits: 5u64.private, _nonce: {nonce}.public }}");
    let record = Record::<MainnetV0, Plaintext<MainnetV0>>::from_str(&text).unwrap();
    let key = private_key.to_string();
    // The text of a record is read, and printed in the one way that there is.
    assert_ne!(text, record.to_string());
    assert_eq!(Developer::parse_record(&key, &text), Ok(record.to_string()));
    // A ciphertext is decrypted.
    let ciphertext = record.encrypt(randomizer).unwrap().to_string();
    assert!(ciphertext.starts_with("record1"));
    assert_eq!(Developer::parse_record(&key, &ciphertext), Ok(record.to_string()));
    // Another account cannot decrypt it.
    let other = PrivateKey::<MainnetV0>::try_from(Field::from_u64(8)).unwrap().to_string();
    assert!(Developer::parse_record(&other, &ciphertext).is_err());
    assert!(Developer::parse_record(&key, "record1abc").is_err());
    assert!(Developer::parse_record(&key, "{}").is_err());
}

#[test]
fn an_error_over_the_network_is_a_chain_of_messages() {
    let error = RestError {
        error_type: "Not Found".to_string(),
        message: "outer".to_string(),
        chain: vec!["innermost".to_string(), "middle".to_string()],
    };
    assert_eq!(error.parse(), ["Not Found: outer", "middle", "innermost"]);
    let bare = RestError {
        error_type: "Not Found".to_string(),
        message: "outer".to_string(),
        chain: vec![],
    };
    assert_eq!(bare.parse(), ["Not Found: outer"]);
}

#[test]
fn responses_are_told_apart() {
    let json = Some("application/json".to_string());
    let text = Some("text/plain".to_string());
    assert_eq!(Developer::handle_ureq_result(200, &json), ResponseKind::Body);
    assert_eq!(Developer::handle_ureq_result(203, &text), ResponseKind::Body);
    assert_eq!(Developer::handle_ureq_result(404, &json), ResponseKind::NotFound);
    assert_eq!(Developer::handle_ureq_result(500, &json), ResponseKind::JsonError);
    assert_eq!(Developer::handle_ureq_result(500, &text), ResponseKind::TextError);
    assert_eq!(Developer::handle_ureq_result(422, &None), ResponseKind::TextError);
    assert_eq!(Developer::handle_ureq_result(300, &None), ResponseKind::TextError);
    assert_eq!(
        request_error(RequestMethod::Get, "http://a", vec!["why".to_string()]),
        ["HTTP GET request to http://a failed", "why"]
    );
    assert_eq!(
        request_error(RequestMethod::Post, "http://a", vec![]),
        ["HTTP POST request to http://a failed"]
    );
}

#[test]
fn a_transaction_is_waited_for() {
    assert!(Developer::keeps_waiting(59, 60));
    assert!(!Developer::keeps_waiting(60, 60));
    let missing = || Err(vec!["gone".to_string(), "why".to_string()]);
    for version in [ApiVersion::V1, ApiVersion::V2] {
        assert!(matches!(Developer::after_poll(version, Ok(true)), PollStep::Confirmed));
        assert!(matches!(Developer::after_poll(version, Ok(false)), PollStep::Retry));
    }
    match Developer::after_poll(ApiVersion::V1, missing()) {
        PollStep::RetryAfter(line) => {
            assert_eq!(line, "Got error when fetching transaction (gone). Will retry...")
        }
        other => panic!("{other:?}"),
    }
    match Developer::after_poll(ApiVersion::V2, missing()) {
        PollStep::Fail(errors) => {
            assert_eq!(errors, ["Failed to check transaction status", "gone", "why"])
        }
        other => panic!("{other:?}"),
    }
    assert_eq!(
        Developer::confirmation_timeout("at1x", 60),
        "❌ Transaction at1x was not confirmed within 60 seconds"
    );
}

#[test]
fn the_latest_edition_must_be_there() {
    assert_eq!(Developer::latest_edition_route("a.aleo"), "program/a.aleo/latest_edition");
    assert_eq!(Developer::get_latest_edition(Some(3)), Ok(3));
    assert_eq!(
        Developer::get_latest_edition(None),
        Err("Got unexpected 404 response".to_string())
    );
}

#[test]
fn a_public_balance_is_an_amount() {
    assert_eq!(
        Developer::public_balance_route("aleo1x"),
        "program/credits.aleo/mapping/account/aleo1x"
    );
    let url = "http://localhost:3030/mainnet/program/credits.aleo/mapping/account/aleo1x";
    let balance = |text: &str| {
        Developer::get_public_balance("aleo1x", url, &Some(text.as_bytes().to_vec()))
    };
    assert_eq!(balance("\"31712836548u64\""), Ok(Some(31_712_836_548)));
    assert_eq!(balance("null"), Ok(None));
    assert_eq!(
        balance("\"5u32\""),
        Err(vec!["Failed to deserialize balance for aleo1x".to_string()])
    );
    // A response that is no value is named with the endpoint that gave it.
    for text in ["\"?\"", "5", "", "\"7u64\" x"] {
        let chain = balance(text).unwrap_err();
        assert_eq!(chain.len(), 2);
        assert_eq!(chain[0], format!("Failed to parse JSON response from {url}"));
        assert!(chain[1].starts_with("json: "), "{chain:?}");
    }
    assert_eq!(
        balance("5").unwrap_err()[1],
        "json: invalid type: integer `5`, expected a string at line 1 column 1"
    );
    assert_eq!(
        Developer::get_public_balance("aleo1x", url, &None),
        Err(vec!["Got unexpected 404 error when fetching public balance".to_string()])
    );
    assert_eq!(Developer::read_balance("aleo1x", url, Ok(Some(Some(7)))), Ok(Some(7)));
    assert_eq!(
        Developer::read_balance("aleo1x", "http://n", Err("bad".to_string())),
        Err(json_error("http://n", "bad"))
    );
    assert_eq!(
        json_error("http://n", "bad"),
        vec!["Failed to parse JSON response from http://n".to_string(), "json: bad".to_string()]
    );
}

fn built(kind: TransactionKind) -> BuiltTransaction {
    BuiltTransaction {
        network: NetworkName::Mainnet,
        kind,
        transaction_id: "at1x".to_string(),
        operation: "a.aleo/f".to_string(),
        endpoint: Some(endpoint("http://localhost:3030/v2")),
        broadcast: Some(None),
        dry_run: false,
        store: false,
        wait: false,
    }
}

#[test]
fn a_fee_transaction_is_not_handled() {
    let mut fee = built(TransactionKind::Fee);
    fee.store = true;
    match fee.begin() {
        TransactionStep::Fail(errors) => assert_eq!(
            errors,
            ["The transaction is a fee transaction and cannot be broadcast"]
        ),
        other => panic!("{other:?}"),
    }
}

#[test]
fn a_transaction_is_stored_before_it_is_broadcast() {
    let mut transaction = built(TransactionKind::Deploy);
    transaction.store = true;
    assert!(matches!(transaction.begin(), TransactionStep::Store));
    match transaction.after_store() {
        TransactionStep::Post(url, version) => {
            assert_eq!(url, "http://localhost:3030/v2/mainnet/transaction/broadcast");
            assert_eq!(version, ApiVersion::V2);
        }
        other => panic!("{other:?}"),
    }
    assert_eq!(
        Developer::stored_line("at1x", "out.json", StoreFormat::Bytes),
        "Transaction at1x was stored to out.json as Bytes"
    );
    assert_eq!(
        Developer::stored_line("at1x", "out.json", StoreFormat::String),
        "Transaction at1x was stored to out.json as String"
    );
}

#[test]
fn a_transaction_that_is_not_broadcast_is_output() {
    let mut transaction = built(TransactionKind::Execute);
    transaction.broadcast = None;
    assert!(matches!(transaction.begin(), TransactionStep::Finish(Output::Nothing)));
    transaction.dry_run = true;
    assert!(matches!(transaction.begin(), TransactionStep::Finish(Output::Transaction)));
}

#[test]
fn a_custom_url_is_preferred() {
    let mut transaction = built(TransactionKind::Execute);
    let custom = "http://other/v2/mainnet/transaction/broadcast";
    transaction.broadcast = Some(Some(endpoint(custom)));
    transaction.endpoint = None;
    match transaction.begin() {
        TransactionStep::Post(url, version) => {
            assert_eq!(url, custom);
            assert_eq!(version, ApiVersion::V2);
        }
        other => panic!("{other:?}"),
    }
    transaction.broadcast = Some(None);
    match transaction.begin() {
        TransactionStep::Fail(errors) => assert_eq!(
            errors,
            ["Cannot broadcast a transaction built from a static query without a broadcast URL"]
        ),
        other => panic!("{other:?}"),
    }
}

#[test]
fn the_reply_to_a_broadcast_is_the_id() {
    let mut transaction = built(TransactionKind::Execute);
    let reply = || Ok(Some("at1x".to_string()));
    let (line, step) = transaction.after_post("http://url", reply());
    assert_eq!(
        line.unwrap(),
        "⌛ Execution at1x ('a.aleo/f') has been broadcast to http://url."
    );
    assert!(matches!(step, TransactionStep::Finish(Output::TransactionId)));
    let (line, step) = transaction.after_post("http://url", Ok(Some("at1y".to_string())));
    assert!(line.is_none());
    match step {
        TransactionStep::Fail(errors) => assert_eq!(
            errors,
            ["The response does not match the transaction id. (at1y != at1x)"]
        ),
        other => panic!("{other:?}"),
    }
    let (_, step) = transaction.after_post("http://url", Ok(None));
    match step {
        TransactionStep::Fail(errors) => assert_eq!(
            errors,
            [
                "Failed to broadcast execution 'a.aleo/f' to http://url",
                "Got unexpected 404 error"
            ]
        ),
        other => panic!("{other:?}"),
    }
    transaction.kind = TransactionKind::Deploy;
    let (_, step) = transaction.after_post("http://url", Err(vec!["why".to_string()]));
    match step {
        TransactionStep::Fail(errors) => {
            assert_eq!(errors, ["Failed to deploy 'a.aleo/f' to http://url", "why"])
        }
        other => panic!("{other:?}"),
    }
}

#[test]
fn a_broadcast_transaction_may_be_waited_for() {
    let mut transaction = built(TransactionKind::Deploy);
    transaction.wait = true;
    let reply = || Ok(Some("at1x".to_string()));
    assert!(matches!(transaction.after_post("http://url", reply()).1, TransactionStep::Wait));
    let (line, step) = transaction.after_confirmation();
    assert_eq!(line, "✅ Deployment at1x ('a.aleo/f') confirmed!");
    assert!(matches!(step, TransactionStep::Finish(Output::TransactionId)));
    transaction.endpoint = None;
    let (line, step) = transaction.after_post("http://url", reply());
    assert_eq!(
        line.unwrap(),
        "⌛ Deployment at1x ('a.aleo/f') has been broadcast to http://url."
    );
    match step {
        TransactionStep::Fail(errors) => assert_eq!(
            errors,
            ["Cannot wait for confirmation of a transaction built from a static query"]
        ),
        other => panic!("{other:?}"),
    }
}

#[test]
fn a_broadcast_goes_to_the_custom_url_first() {
    let query = endpoint("http://localhost:3030");
    let custom = endpoint("http://localhost:4040/v2/mainnet/transaction/broadcast");
    let (url, version) =
        Developer::broadcast_target(NetworkName::Mainnet, Some(&query), Some(&custom)).unwrap();
    assert_eq!(url, "http://localhost:4040/v2/mainnet/transaction/broadcast");
    assert!(matches!(version, ApiVersion::V2));
    let (url, _) = Developer::broadcast_target(NetworkName::Mainnet, Some(&query), None).unwrap();
    assert!(url.starts_with("http://localhost:3030/"));
    assert!(url.ends_with("/mainnet/transaction/broadcast"));
    assert!(Developer::broadcast_target(NetworkName::Mainnet, None, None).is_err());
}

#[test]
fn only_a_static_query_cannot_be_waited_for() {
    let query = endpoint("http://localhost:3030");
    assert!(Developer::wait_endpoint(Some(&query)).is_ok());
    assert_eq!(
        Developer::wait_endpoint(None).unwrap_err(),
        "Cannot wait for confirmation of a transaction built from a static query"
    );
}

#[test]
fn a_confirmed_transaction_is_named_by_its_kind() {
    assert_eq!(
        Developer::confirmed_line(TransactionKind::Deploy, "at1", "hello.aleo"),
        "\u{2705} Deployment at1 ('hello.aleo') confirmed!"
    );
    assert_eq!(
        Developer::confirmed_line(TransactionKind::Execute, "at1", "hello.aleo/main"),
        "\u{2705} Execution at1 ('hello.aleo/main') confirmed!"
    );
}

#[test]
fn only_a_fee_transaction_is_refused() {
    assert!(Developer::check_kind(TransactionKind::Deploy).is_ok());
    assert!(Developer::check_kind(TransactionKind::Execute).is_ok());
    assert_eq!(
        Developer::check_kind(TransactionKind::Fee).unwrap_err(),
        "The transaction is a fee transaction and cannot be broadcast"
    );
}

#[test]
fn a_reply_other_than_the_id_is_an_error() {
    let reply = |text: &str| Ok(Some(text.to_string()));
    let result = |given| {
        Developer::broadcast_result(
            TransactionKind::Execute,
            "at1",
            "hello.aleo/main",
            "http://localhost:3030",
            given,
        )
    };
    assert!(result(reply("at1")).is_ok());
    assert!(result(reply("at2")).is_err());
    assert!(result(Ok(None)).is_err());
    assert!(result(Err(vec!["gone".to_string()])).is_err());
}
