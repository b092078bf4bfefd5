use eleel::config::{Config, FcuMatching};
use eleel::dispatch::{accepts_batches, collect_responses, route, Endpoint, Route};
use eleel::fork::ForkSchedule;
use eleel::jwt::{convert_err, Claims, KeyCollection};
use eleel::multiplexer::{EngineReply, Multiplexer};
use eleel::payload::{ExecutionPayload, PayloadStatus, Status};
use eleel::types::{
    ErrorCode, ErrorResponse, JsonError, JsonForkchoiceStateV1, JsonValue, MaybeErrorResponse,
    QuantityU64, Request, Requests, Response, Responses,
};

fn id(n: u64) -> JsonValue {
    JsonValue::from(n)
}

fn bad_json() -> serde_json::Error {
    serde_json::from_str::<u64>("not a number").unwrap_err()
}

#[test]
fn error_codes() {
    let codes = [
        (ErrorCode::ParseError, -32700),
        (ErrorCode::InvalidRequest, -32600),
        (ErrorCode::MethodNotFound, -32601),
        (ErrorCode::InvalidParams, -32602),
        (ErrorCode::InternalError, -32603),
        (ErrorCode::ServerError, -32000),
        (ErrorCode::UnknownPayload, -38001),
        (ErrorCode::InvalidForkChoiceState, -38002),
        (ErrorCode::InvalidPayloadAttributes, -38003),
        (ErrorCode::TooLargeRequest, -38004),
    ];
    for (error, code) in codes {
        assert_eq!(error.code(), code);
        assert_eq!(ErrorCode::from_code(code), Some(error));
    }
    assert_eq!(ErrorCode::from_code(0), None);
    assert_eq!(ErrorCode::from_code(-32604), None);
}

#[test]
fn error_responses() {
    let e = ErrorResponse::unsupported_method(id(1), "eth_foo");
    assert_eq!(e.jsonrpc, "2.0");
    assert_eq!(e.id, id(1));
    assert_eq!(
        e.error,
        JsonError {
            code: ErrorCode::MethodNotFound,
            message: "method `eth_foo` not supported".to_string()
        }
    );
    let e = ErrorResponse::parse_error_generic(id(2), "timestamp value missing".to_string());
    assert_eq!(e.error.code, ErrorCode::ParseError);
    assert_eq!(e.error.message, "timestamp value missing");
    let e = ErrorResponse::invalid_request(id(3), "a".to_string());
    assert_eq!((e.error.code, e.error.message.as_str(), &e.id), (ErrorCode::InvalidRequest, "a", &id(3)));
    let e = ErrorResponse::invalid_payload_attributes(id(4), "b".to_string());
    assert_eq!(e.error.code, ErrorCode::InvalidPayloadAttributes);
    assert_eq!(e.error.message, "b");
    let e = ErrorResponse::unknown_payload(id(5), "c".to_string());
    assert_eq!(e.error.code, ErrorCode::UnknownPayload);
    assert_eq!(e.jsonrpc, "2.0");
    let e = ErrorResponse::parse_error(id(6), bad_json());
    assert_eq!(e.error.code, ErrorCode::ParseError);
    assert_eq!(e.id, id(6));
    assert_eq!(e.error.message, format!("parse error: {:?}", bad_json()));
}

#[test]
fn responses_carry_the_result_or_a_parse_error() {
    let r = Response::new(id(1), Ok(JsonValue::from(false))).unwrap();
    assert_eq!(
        r,
        Response { jsonrpc: "2.0".to_string(), id: id(1), result: JsonValue::from(false) }
    );
    let e = Response::new(id(1), Err(bad_json())).unwrap_err();
    assert_eq!(e.error.code, ErrorCode::ParseError);
    assert!(e.error.message.starts_with("parse error: "));
    assert_eq!(e.id, id(1));
}

#[test]
fn request_parameters_are_parsed_or_refused() {
    let request = || Request {
        jsonrpc: "2.0".to_string(),
        method: "eth_syncing".to_string(),
        params: JsonValue::Array(vec![]),
        id: id(9),
    };
    assert_eq!(request().parse_as(Ok(vec![1u8, 2])), Ok((id(9), vec![1u8, 2])));
    let e = request().parse_as::<u64>(Err(bad_json())).unwrap_err();
    assert_eq!(e.error.code, ErrorCode::ParseError);
    assert_eq!(e.id, id(9));
    assert!(e.error.message.starts_with("parse error: "));
}

#[test]
fn methods_are_routed_by_endpoint() {
    for version in ["V1", "V2", "V3"] {
        let fcu = format!("engine_forkchoiceUpdated{version}");
        assert_eq!(route(Endpoint::Client, &fcu), Route::ForkchoiceUpdated);
        assert_eq!(route(Endpoint::Controller, &fcu), Route::ControllerForkchoiceUpdated);
        let get = format!("engine_getPayload{version}");
        assert_eq!(route(Endpoint::Client, &get), Route::GetPayload);
        assert_eq!(route(Endpoint::Controller, &get), Route::GetPayload);
    }
    for version in ["V1", "V2", "V3", "V4"] {
        let new_payload = format!("engine_newPayload{version}");
        assert_eq!(route(Endpoint::Client, &new_payload), Route::NewPayload);
        assert_eq!(route(Endpoint::Controller, &new_payload), Route::ControllerNewPayload);
    }
    for endpoint in [Endpoint::Client, Endpoint::Controller] {
        assert_eq!(route(endpoint, "eth_syncing"), Route::Syncing);
        assert_eq!(route(endpoint, "eth_chainId"), Route::ChainId);
        assert_eq!(route(endpoint, "engine_exchangeCapabilities"), Route::ExchangeCapabilities);
        for method in [
            "eth_getBlockByNumber",
            "eth_getBlockByHash",
            "eth_getLogs",
            "eth_call",
            "eth_blockNumber",
            "engine_getPayloadBodiesByHashV1",
            "engine_getPayloadBodiesByRangeV1",
        ] {
            assert_eq!(route(endpoint, method), Route::ProxyDirectly);
        }
        for method in [
            "",
            "eth_sendTransaction",
            "engine_forkchoiceUpdatedV4",
            "engine_newPayloadV5",
            "engine_getPayloadV4",
            "ENGINE_NEWPAYLOADV1",
            "engine_exchangeTransitionConfigurationV1",
        ] {
            assert_eq!(route(endpoint, method), Route::Unsupported);
        }
    }
    assert!(accepts_batches(Endpoint::Client));
    assert!(!accepts_batches(Endpoint::Controller));
}

#[test]
fn batch_answers_keep_length_and_order() {
    let ok = |n: u64| Response { jsonrpc: "2.0".to_string(), id: id(n), result: JsonValue::from(n) };
    let results = vec![
        Ok(ok(1)),
        Err(ErrorResponse::unsupported_method(id(2), "eth_foo")),
        Ok(ok(3)),
        Err(ErrorResponse::invalid_request(id(4), "no".to_string())),
        Ok(ok(5)),
    ];
    match collect_responses(results) {
        Responses::Multiple(answers) => {
            assert_eq!(answers.len(), 5);
            assert_eq!(answers[0], MaybeErrorResponse::Success(ok(1)));
            assert_eq!(
                answers[1],
                MaybeErrorResponse::Failure(ErrorResponse::unsupported_method(id(2), "eth_foo"))
            );
            assert_eq!(answers[2], MaybeErrorResponse::Success(ok(3)));
            assert_eq!(
                answers[3],
                MaybeErrorResponse::Failure(ErrorResponse::invalid_request(id(4), "no".to_string()))
            );
            assert_eq!(answers[4], MaybeErrorResponse::Success(ok(5)));
        }
        other => panic!("unexpected responses: {other:?}"),
    }
    match collect_responses(vec![]) {
        Responses::Multiple(answers) => assert!(answers.is_empty()),
        other => panic!("unexpected responses: {other:?}"),
    }
}

#[test]
fn results_become_answers() {
    let response = Response { jsonrpc: "2.0".to_string(), id: id(1), result: JsonValue::Null };
    assert!(matches!(MaybeErrorResponse::from(Ok(response)), MaybeErrorResponse::Success(_)));
    let error = ErrorResponse::invalid_request(id(1), "no".to_string());
    assert!(matches!(MaybeErrorResponse::from(Err(error)), MaybeErrorResponse::Failure(_)));
    let batch = Requests::Multiple(vec![]);
    assert!(matches!(batch, Requests::Multiple(ref all) if all.is_empty()));
    assert_eq!(QuantityU64 { value: 1 }, QuantityU64 { value: 1 });
}

#[test]
fn settings_by_default() {
    let config = Config::default();
    assert_eq!(config.new_payload_cache_size, 64);
    assert_eq!(config.fcu_cache_size, 64);
    assert_eq!(config.justified_block_cache_size, 4);
    assert_eq!(config.finalized_block_cache_size, 4);
    assert_eq!(config.payload_builder_cache_size, 8);
    assert_eq!(config.fcu_matching, FcuMatching::Loose);
    assert_eq!(config.new_payload_wait_millis, 2000);
    assert_eq!(config.fcu_wait_millis, 1000);
    assert_eq!(config.new_payload_wait_cutoff, 64);
    assert_eq!(config.body_limit_mb, 128);
    assert_eq!(config.clone(), config);
}

#[test]
fn matching_by_name() {
    assert_eq!(FcuMatching::from_name("exact"), Some(FcuMatching::Exact));
    assert_eq!(FcuMatching::from_name("loose"), Some(FcuMatching::Loose));
    assert_eq!(FcuMatching::from_name("head-only"), Some(FcuMatching::HeadOnly));
    assert_eq!(FcuMatching::from_name("HeadOnly"), None);
    assert_eq!(FcuMatching::from_name(""), None);
    for matching in [FcuMatching::Exact, FcuMatching::Loose, FcuMatching::HeadOnly] {
        assert_eq!(FcuMatching::from_name(matching.name()), Some(matching));
    }
}

fn schedule() -> ForkSchedule {
    ForkSchedule {
        seconds_per_slot: 12,
        slots_per_epoch: 32,
        altair_fork_epoch: Some(0),
        bellatrix_fork_epoch: Some(0),
        capella_fork_epoch: None,
        deneb_fork_epoch: None,
        electra_fork_epoch: None,
    }
}

#[test]
fn caches_of_no_entries_are_refused() {
    let sizes: [fn(&mut Config); 5] = [
        |c| c.fcu_cache_size = 0,
        |c| c.new_payload_cache_size = 0,
        |c| c.justified_block_cache_size = 0,
        |c| c.finalized_block_cache_size = 0,
        |c| c.payload_builder_cache_size = 0,
    ];
    for zero in sizes {
        let mut config = Config::default();
        zero(&mut config);
        assert_eq!(
            Multiplexer::new(config, schedule(), 0).err(),
            Some("invalid cache size".to_string())
        );
    }
    let empty = ForkSchedule { slots_per_epoch: 0, ..schedule() };
    assert_eq!(
        Multiplexer::new(Config::default(), empty, 0).err(),
        Some("invalid fork schedule".to_string())
    );
    let m = Multiplexer::new(Config::default(), schedule(), 7).unwrap();
    assert_eq!(m.genesis_time, 7);
    assert!(!m.handle_syncing());
}

#[test]
fn finalized_cache_has_its_own_size() {
    let config = Config {
        justified_block_cache_size: 1,
        finalized_block_cache_size: 2,
        ..Config::default()
    };
    let mut m = Multiplexer::new(config, schedule(), 0).unwrap();
    let seal = |_: &ExecutionPayload, _: Option<[u8; 32]>| [0u8; 32];
    let valid = PayloadStatus { status: Status::Valid, latest_valid_hash: None, validation_error: None };
    let first = JsonForkchoiceStateV1 {
        head_block_hash: [1; 32],
        safe_block_hash: [1; 32],
        finalized_block_hash: [0xf1; 32],
    };
    let second = JsonForkchoiceStateV1 {
        head_block_hash: [2; 32],
        safe_block_hash: [1; 32],
        finalized_block_hash: [0xf2; 32],
    };
    m.handle_controller_fcu(&first, None, EngineReply::Answered(valid.clone()), seal);
    m.handle_controller_fcu(&second, None, EngineReply::Answered(valid.clone()), seal);
    // Both finalized blocks are still known.
    assert_eq!(m.get_cached_fcu(&first, true), Some(valid.clone()));
    assert_eq!(m.get_cached_fcu(&second, true), Some(valid));
}

#[test]
fn jwt_errors_are_worded() {
    assert_eq!(
        convert_err(jwt::Error::InvalidSignature),
        "JWT verification error: Invalid signature"
    );
    assert_eq!(
        convert_err(jwt::Error::NoClaimsComponent),
        "JWT verification error: No claims component found in token string"
    );
}

fn claims(id: &str) -> Claims {
    Claims { iat: 17, id: Some(id.to_string()), clv: None }
}

fn keys() -> KeyCollection {
    KeyCollection::load(vec![
        ("a".to_string(), "0a".to_string()),
        ("b".to_string(), "0b".to_string()),
        ("c".to_string(), "0c".to_string()),
    ])
    .unwrap()
}

#[test]
fn token_is_verified_with_the_secret_that_it_names() {
    let keys = keys();
    let only = |wanted: u8| {
        move |secret: &Vec<u8>| {
            if *secret == vec![wanted] {
                Ok(claims("x"))
            } else {
                Err(format!("not {secret:?}"))
            }
        }
    };
    // The named secret decides, for or against.
    assert_eq!(keys.find(&Some("b".to_string())), Some(1));
    assert_eq!(keys.verify(&Some("b".to_string()), only(0x0b)), Ok(claims("x")));
    assert_eq!(keys.verify(&Some("b".to_string()), only(0x0c)), Err("not [11]".to_string()));
    // Without a name, or with one that is not there, each secret is tried.
    assert_eq!(keys.find(&None), None);
    assert_eq!(keys.find(&Some("z".to_string())), None);
    assert_eq!(keys.verify(&None, only(0x0c)), Ok(claims("x")));
    assert_eq!(keys.verify(&Some("z".to_string()), only(0x0a)), Ok(claims("x")));
    assert_eq!(
        keys.verify(&None, only(0x0d)),
        Err("No matching JWT secret found".to_string())
    );
    let none = KeyCollection::load(vec![]).unwrap();
    assert_eq!(
        none.verify(&Some("a".to_string()), only(0x0a)),
        Err("No matching JWT secret found".to_string())
    );
}

#[test]
fn first_secret_that_verifies_decides() {
    let keys = keys();
    let from = |first: u8| {
        move |secret: &Vec<u8>| {
            if secret[0] >= first {
                Ok(claims(&secret[0].to_string()))
            } else {
                Err(String::new())
            }
        }
    };
    assert_eq!(keys.verify(&None, from(0x0b)), Ok(claims("11")));
    assert_eq!(keys.verify(&None, from(0x0a)), Ok(claims("10")));
}

#[test]
fn secrets_are_read_from_hexadecimal() {
    let keys = KeyCollection::load(vec![
        ("a".to_string(), "00ff".to_string()),
        ("b".to_string(), "DeadBeef".to_string()),
        ("a".to_string(), "0102".to_string()),
        ("c".to_string(), String::new()),
    ])
    .unwrap();
    assert_eq!(keys.ids, vec!["a".to_string(), "b".to_string(), "c".to_string()]);
    assert_eq!(keys.secrets, vec![vec![1, 2], vec![0xde, 0xad, 0xbe, 0xef], vec![]]);
}

#[test]
fn secrets_that_are_not_hexadecimal_are_refused() {
    for bad in ["0", "0x00", "zz", "00 ", "0g"] {
        let result = KeyCollection::load(vec![
            ("a".to_string(), "00".to_string()),
            ("b".to_string(), bad.to_string()),
        ]);
        match result {
            Err(message) => assert!(message.starts_with("Invalid JWT secret: "), "{message}"),
            Ok(_) => panic!("{bad} was taken for a secret"),
        }
    }
    assert_eq!(
        KeyCollection::load(vec![("a".to_string(), "012".to_string())]).err(),
        Some("Invalid JWT secret: OddLength".to_string())
    );
}
