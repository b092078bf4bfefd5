use eleel::config::Config;
use eleel::fcu::FollowerFcuStep;
use eleel::fork::{ForkName, ForkSchedule};
use eleel::hash::{BlockHash, PayloadId};
use eleel::multiplexer::{ControllerStep, EngineReply, Multiplexer};
use eleel::payload::{
    BlobGas, ExecutionPayload, ForkchoiceUpdatedResponse, PayloadAttributes, PayloadInfo,
    PayloadStatus, Status, Withdrawal,
};
use eleel::payload_builder::{key_of_attributes, GetPayloadResponse, PayloadBuilder};
use eleel::types::{ErrorCode, JsonForkchoiceStateV1};
use eleel::uint256::Uint256;

const GENESIS: u64 = 1_000;
const PARENT: BlockHash = [0xaa; 32];
const STATE_ROOT: BlockHash = [0x5a; 32];
const RANDAO: BlockHash = [0x77; 32];
const BEACON_ROOT: BlockHash = [0xbb; 32];
const FEE_RECIPIENT: [u8; 20] = [0xfe; 20];
const EMPTY_LIST_RLP: BlockHash = [
    0x1d, 0xcc, 0x4d, 0xe8, 0xde, 0xc7, 0x5d, 0x7a, 0xab, 0x85, 0xb5, 0x67, 0xb6, 0xcc, 0xd4,
    0x1a, 0xd3, 0x12, 0x45, 0x1b, 0x94, 0x8a, 0x74, 0x13, 0xf0, 0xa1, 0x42, 0xfd, 0x40, 0xd4,
    0x93, 0x47,
];

fn schedule() -> ForkSchedule {
    ForkSchedule {
        seconds_per_slot: 12,
        slots_per_epoch: 32,
        altair_fork_epoch: Some(0),
        bellatrix_fork_epoch: Some(1),
        capella_fork_epoch: Some(2),
        deneb_fork_epoch: Some(3),
        electra_fork_epoch: Some(4),
    }
}

/// A time in the given epoch.
fn time_in_epoch(epoch: u64) -> u64 {
    GENESIS + epoch * 32 * 12 + 5
}

fn multiplexer() -> Multiplexer {
    let config = Config {
        payload_builder_extra_data: "eleel".to_string(),
        ..Config::default()
    };
    Multiplexer::new(config, schedule(), GENESIS).unwrap()
}

fn parent_info() -> PayloadInfo {
    PayloadInfo {
        block_number: 100,
        state_root: STATE_ROOT,
        base_fee_per_gas: Uint256::from_u64(1_000_000_000),
        gas_used: 15_000_000,
        gas_limit: 30_000_000,
    }
}

fn attributes(epoch: u64) -> PayloadAttributes {
    PayloadAttributes {
        timestamp: time_in_epoch(epoch),
        prev_randao: RANDAO,
        suggested_fee_recipient: FEE_RECIPIENT,
        withdrawals: Some(vec![]),
        parent_beacon_block_root: Some(BEACON_ROOT),
    }
}

fn withdrawal(index: u64) -> Withdrawal {
    Withdrawal { index, validator_index: index + 1000, address: [index as u8; 20], amount: 32 }
}

/// A stand-in for the hash of a header: it depends on the block number, on
/// the timestamp and on the parent beacon block root.
fn seal(payload: &ExecutionPayload, root: Option<BlockHash>) -> BlockHash {
    assert_eq!(payload.block_hash(), [0u8; 32]);
    let mut hash = root.unwrap_or([0x01; 32]);
    hash[..8].copy_from_slice(&payload.block_number().to_be_bytes());
    hash[8..16].copy_from_slice(&payload.header().timestamp.to_be_bytes());
    hash
}

fn with_zero_hash(payload: &ExecutionPayload) -> ExecutionPayload {
    payload.clone().set_block_hash([0u8; 32])
}

#[test]
fn dummy_payload_end_to_end() {
    let mut m = multiplexer();
    m.register_canonical_payload(&PARENT, parent_info(), Status::Valid);
    let attrs = attributes(3);
    let id = m.register_attributes(PARENT, &attrs, seal).unwrap();
    assert_eq!(id, [0u8; 8]);
    let payload = m.get_payload(id).unwrap();
    let header = payload.header();
    assert_eq!(header.parent_hash, PARENT);
    assert_eq!(header.fee_recipient, FEE_RECIPIENT);
    assert_eq!(header.state_root, STATE_ROOT);
    assert_eq!(header.receipts_root, EMPTY_LIST_RLP);
    assert_eq!(header.logs_bloom, [0u8; 256]);
    assert_eq!(header.prev_randao, RANDAO);
    assert_eq!(header.block_number, 101);
    assert_eq!(header.gas_limit, 30_000_000);
    assert_eq!(header.gas_used, 0);
    assert_eq!(header.timestamp, attrs.timestamp);
    assert_eq!(header.extra_data, b"eleel".to_vec());
    assert_eq!(header.base_fee_per_gas, Uint256::from_u64(1_000_000_000));
    assert!(header.transactions.is_empty());
    match &payload {
        ExecutionPayload::Deneb { withdrawals, blob_gas, .. } => {
            assert!(withdrawals.is_empty());
            assert_eq!(*blob_gas, BlobGas { blob_gas_used: 0, excess_blob_gas: 0 });
        }
        other => panic!("unexpected payload: {other:?}"),
    }
    assert_eq!(payload.block_hash(), seal(&with_zero_hash(&payload), Some(BEACON_ROOT)));
    assert_ne!(payload.block_hash(), [0u8; 32]);
    match m.handle_get_payload(id).unwrap() {
        GetPayloadResponse::V3 {
            execution_payload,
            block_value,
            blobs_bundle,
            should_override_builder,
        } => {
            assert_eq!(execution_payload, payload);
            assert_eq!(block_value, Uint256::zero());
            assert!(blobs_bundle.commitments.is_empty());
            assert!(blobs_bundle.proofs.is_empty());
            assert!(blobs_bundle.blobs.is_empty());
            assert!(!should_override_builder);
        }
        other => panic!("unexpected response: {other:?}"),
    }
}

#[test]
fn payload_of_each_fork() {
    let mut m = multiplexer();
    m.register_canonical_payload(&PARENT, parent_info(), Status::Valid);
    let mut expected_id = 0u64;
    for epoch in 1..=4 {
        let mut attrs = attributes(epoch);
        attrs.withdrawals = Some(vec![withdrawal(1), withdrawal(2)]);
        let id = m.register_attributes(PARENT, &attrs, seal).unwrap();
        assert_eq!(id, expected_id.to_be_bytes());
        expected_id += 1;
        let payload = m.get_payload(id).unwrap();
        assert_eq!(payload.block_hash(), seal(&with_zero_hash(&payload), Some(BEACON_ROOT)));
        let response = m.handle_get_payload(id).unwrap();
        match (epoch, &payload, &response) {
            (1, ExecutionPayload::Bellatrix { .. }, GetPayloadResponse::V1 { block_value, .. }) => {
                assert_eq!(*block_value, Uint256::zero());
            }
            (
                2,
                ExecutionPayload::Capella { withdrawals, .. },
                GetPayloadResponse::V2 { block_value, .. },
            ) => {
                assert_eq!(*withdrawals, vec![withdrawal(1), withdrawal(2)]);
                assert_eq!(*block_value, Uint256::zero());
            }
            (3, ExecutionPayload::Deneb { withdrawals, .. }, GetPayloadResponse::V3 { .. }) => {
                assert_eq!(withdrawals.len(), 2);
            }
            (
                4,
                ExecutionPayload::Electra { withdrawals, blob_gas, .. },
                GetPayloadResponse::V4 {
                    execution_requests,
                    blobs_bundle,
                    should_override_builder,
                    ..
                },
            ) => {
                assert_eq!(withdrawals.len(), 2);
                assert_eq!(*blob_gas, BlobGas { blob_gas_used: 0, excess_blob_gas: 0 });
                assert!(execution_requests.is_empty());
                assert!(blobs_bundle.blobs.is_empty());
                assert!(!should_override_builder);
            }
            other => panic!("unexpected payload or response: {other:?}"),
        }
    }
}

#[test]
fn attributes_registered_twice_get_the_same_id() {
    let mut m = multiplexer();
    m.register_canonical_payload(&PARENT, parent_info(), Status::Valid);
    let attrs = attributes(3);
    let first = m.register_attributes(PARENT, &attrs, seal).unwrap();
    let payload = m.get_payload(first).unwrap();
    let second = m.register_attributes(PARENT, &attrs.clone(), seal).unwrap();
    assert_eq!(first, second);
    assert_eq!(m.get_payload(second).unwrap(), payload);
    // Other attributes get the next id.
    let mut other = attributes(3);
    other.prev_randao = [0x78; 32];
    assert_eq!(m.register_attributes(PARENT, &other, seal), Ok([0, 0, 0, 0, 0, 0, 0, 1]));
    assert_eq!(m.get_existing_payload_id(&PARENT, &attrs), Ok(first));
}

#[test]
fn attributes_differ_in_every_field() {
    let base = attributes(3);
    let mut variants = vec![base.clone()];
    let mut v = base.clone();
    v.timestamp += 1;
    variants.push(v);
    let mut v = base.clone();
    v.prev_randao[31] ^= 1;
    variants.push(v);
    let mut v = base.clone();
    v.suggested_fee_recipient[0] ^= 1;
    variants.push(v);
    let mut v = base.clone();
    v.parent_beacon_block_root = None;
    variants.push(v);
    let mut v = base.clone();
    v.parent_beacon_block_root = Some([0xbc; 32]);
    variants.push(v);
    let mut v = base.clone();
    v.withdrawals = None;
    variants.push(v);
    let mut v = base.clone();
    v.withdrawals = Some(vec![withdrawal(1)]);
    variants.push(v);
    let mut v = base.clone();
    v.withdrawals = Some(vec![withdrawal(2)]);
    variants.push(v);
    let mut v = base.clone();
    v.withdrawals = Some(vec![withdrawal(1), withdrawal(2)]);
    variants.push(v);
    for (i, a) in variants.iter().enumerate() {
        for (j, b) in variants.iter().enumerate() {
            assert_eq!(
                key_of_attributes(&PARENT, a) == key_of_attributes(&PARENT, b),
                i == j
            );
        }
        assert_ne!(key_of_attributes(&PARENT, a), key_of_attributes(&[0xab; 32], a));
    }
}

#[test]
fn canonical_info_keeps_the_first_observation() {
    let mut m = multiplexer();
    m.register_canonical_payload(&PARENT, parent_info(), Status::Accepted);
    let replayed = PayloadInfo { block_number: 500, gas_used: 30_000_000, ..parent_info() };
    m.register_canonical_payload(&PARENT, replayed, Status::Valid);
    let id = m.register_attributes(PARENT, &attributes(3), seal).unwrap();
    let payload = m.get_payload(id).unwrap();
    assert_eq!(payload.block_number(), 101);
    assert_eq!(payload.header().base_fee_per_gas, Uint256::from_u64(1_000_000_000));
}

#[test]
fn invalid_blocks_are_not_remembered() {
    let mut m = multiplexer();
    m.register_canonical_payload(&PARENT, parent_info(), Status::Invalid);
    m.register_canonical_payload(&PARENT, parent_info(), Status::InvalidBlockHash);
    assert_eq!(
        m.register_attributes(PARENT, &attributes(3), seal),
        Err(format!("unknown parent: 0x{}", "aa".repeat(32)))
    );
    for status in [Status::Syncing, Status::Accepted, Status::Valid] {
        let mut fresh = multiplexer();
        fresh.register_canonical_payload(&PARENT, parent_info(), status);
        assert!(fresh.register_attributes(PARENT, &attributes(3), seal).is_ok());
    }
}

#[test]
fn controller_payload_registers_the_block() {
    let mut m = multiplexer();
    let valid = PayloadStatus { status: Status::Valid, latest_valid_hash: None, validation_error: None };
    m.handle_controller_new_payload(&PARENT, parent_info(), EngineReply::Answered(valid));
    assert!(m.register_attributes(PARENT, &attributes(3), seal).is_ok());
    let other = [0xac; 32];
    let invalid = PayloadStatus {
        status: Status::Invalid,
        latest_valid_hash: None,
        validation_error: Some("bad block".to_string()),
    };
    m.handle_controller_new_payload(&other, parent_info(), EngineReply::Answered(invalid.clone()));
    assert!(m.register_attributes(other, &attributes(3), seal).is_err());
    assert_eq!(m.get_cached_payload_status(&other, true), Some(invalid));
}

#[test]
fn attributes_are_refused() {
    let mut m = multiplexer();
    m.register_canonical_payload(&PARENT, parent_info(), Status::Valid);
    let mut early = attributes(3);
    early.timestamp = GENESIS - 1;
    assert_eq!(
        m.register_attributes(PARENT, &early, seal),
        Err("invalid timestamp 999".to_string())
    );
    assert_eq!(
        m.register_attributes([0x01; 32], &attributes(3), seal),
        Err(format!("unknown parent: 0x{}", "01".repeat(32)))
    );
    assert_eq!(
        m.register_attributes(PARENT, &attributes(0), seal),
        Err("invalid fork: altair".to_string())
    );
    for epoch in 2..=4 {
        let mut bare = attributes(epoch);
        bare.withdrawals = None;
        assert_eq!(m.register_attributes(PARENT, &bare, seal), Err("no withdrawals".to_string()));
    }
    // Before Capella no withdrawals are asked for.
    let mut bare = attributes(1);
    bare.withdrawals = None;
    assert_eq!(m.register_attributes(PARENT, &bare, seal), Ok([0u8; 8]));
    // A refusal takes no id.
    assert_eq!(m.register_attributes(PARENT, &attributes(3), seal), Ok([0, 0, 0, 0, 0, 0, 0, 1]));
}

#[test]
fn attributes_on_a_parent_that_cannot_be_built_on() {
    let mut builder = PayloadBuilder::new(4, "").unwrap();
    let last = PayloadInfo { block_number: u64::MAX, ..parent_info() };
    builder.register_canonical_payload(&PARENT, last, Status::Valid);
    assert_eq!(
        builder.register_attributes(PARENT, &attributes(3), ForkName::Deneb, seal),
        Err("block number overflow".to_string())
    );
    let costly = PayloadInfo {
        base_fee_per_gas: Uint256 { limbs: [u64::MAX; 4] },
        gas_used: 30_000_000,
        ..parent_info()
    };
    let other = [0xac; 32];
    builder.register_canonical_payload(&other, costly, Status::Valid);
    assert_eq!(
        builder.register_attributes(other, &attributes(3), ForkName::Deneb, seal),
        Err("base fee overflow".to_string())
    );
    let empty = PayloadInfo { gas_used: 1, gas_limit: 0, ..parent_info() };
    let third = [0xad; 32];
    builder.register_canonical_payload(&third, empty, Status::Valid);
    assert_eq!(
        builder.register_attributes(third, &attributes(3), ForkName::Deneb, seal),
        Err("base fee overflow".to_string())
    );
}

#[test]
fn base_fee_of_the_payload_follows_the_parent() {
    let mut m = multiplexer();
    let full = PayloadInfo { gas_used: 30_000_000, ..parent_info() };
    m.register_canonical_payload(&PARENT, full, Status::Valid);
    let id = m.register_attributes(PARENT, &attributes(3), seal).unwrap();
    assert_eq!(
        m.get_payload(id).unwrap().header().base_fee_per_gas,
        Uint256::from_u64(1_125_000_000)
    );
}

#[test]
fn unknown_payload_id() {
    let mut m = multiplexer();
    let id: PayloadId = [0, 0, 0, 0, 0, 0, 1, 2];
    assert_eq!(m.get_payload(id), Err("unknown payload ID: 258".to_string()));
    let error = m.handle_get_payload(id).unwrap_err();
    assert_eq!(error.code, ErrorCode::UnknownPayload);
    assert_eq!(error.code.code(), -38001);
    assert_eq!(error.message, "unknown payload ID: 258");
}

#[test]
fn existing_payload_id_is_looked_up_exactly() {
    let mut m = multiplexer();
    m.register_canonical_payload(&PARENT, parent_info(), Status::Valid);
    let attrs = attributes(3);
    assert_eq!(
        m.get_existing_payload_id(&PARENT, &attrs),
        Err(format!("no payload ID known for parent 0x{}", "aa".repeat(32)))
    );
    let id = m.register_attributes(PARENT, &attrs, seal).unwrap();
    assert_eq!(m.get_existing_payload_id(&PARENT, &attrs), Ok(id));
    let mut other = attributes(3);
    other.timestamp += 1;
    assert!(m.get_existing_payload_id(&PARENT, &other).is_err());
    assert!(m.get_existing_payload_id(&[0xab; 32], &attrs).is_err());
}

#[test]
fn extra_data_is_cut_to_what_a_payload_holds() {
    let long = "0123456789012345678901234567890123456789";
    let mut builder = PayloadBuilder::new(4, long).unwrap();
    builder.register_canonical_payload(&PARENT, parent_info(), Status::Valid);
    let id = builder.register_attributes(PARENT, &attributes(3), ForkName::Deneb, seal).unwrap();
    let payload = builder.get_payload(&id).unwrap();
    assert_eq!(payload.header().extra_data, long.as_bytes()[..32].to_vec());
    assert!(PayloadBuilder::new(0, long).is_none());
}

#[test]
fn builder_caches_drop_the_least_recently_used() {
    let mut builder = PayloadBuilder::new(2, "").unwrap();
    builder.register_canonical_payload(&PARENT, parent_info(), Status::Valid);
    let mut ids = vec![];
    for i in 0..3u64 {
        let mut attrs = attributes(3);
        attrs.timestamp += i;
        ids.push(builder.register_attributes(PARENT, &attrs, ForkName::Deneb, seal).unwrap());
    }
    assert!(builder.get_payload(&ids[0]).is_err());
    assert!(builder.get_payload(&ids[1]).is_ok());
    assert!(builder.get_payload(&ids[2]).is_ok());
    // The first attributes are forgotten too, and are given a new id.
    assert_eq!(
        builder.register_attributes(PARENT, &attributes(3), ForkName::Deneb, seal),
        Ok([0, 0, 0, 0, 0, 0, 0, 3])
    );
}

#[test]
fn controller_fcu_with_attributes_builds_a_payload() {
    let mut m = multiplexer();
    m.register_canonical_payload(&PARENT, parent_info(), Status::Valid);
    let choice = JsonForkchoiceStateV1 {
        head_block_hash: PARENT,
        safe_block_hash: [0x21; 32],
        finalized_block_hash: [0x31; 32],
    };
    let valid = PayloadStatus {
        status: Status::Valid,
        latest_valid_hash: Some(PARENT),
        validation_error: None,
    };
    let attrs = attributes(3);
    assert_eq!(
        m.handle_controller_fcu(&choice, Some(&attrs), EngineReply::NotAsked, seal),
        ControllerStep::AskEngine
    );
    let expected = ForkchoiceUpdatedResponse {
        payload_status: valid.clone(),
        payload_id: Some([0u8; 8]),
    };
    assert_eq!(
        m.handle_controller_fcu(&choice, Some(&attrs), EngineReply::Answered(valid.clone()), seal),
        ControllerStep::Done(Ok(ForkchoiceUpdatedResponse {
            payload_status: valid.clone(),
            payload_id: Some([0u8; 8])
        }))
    );
    // Attributes are registered too where the status comes from the cache.
    let mut later = attributes(3);
    later.timestamp += 12;
    assert_eq!(
        m.handle_controller_fcu(&choice, Some(&later), EngineReply::NotAsked, seal),
        ControllerStep::Done(Ok(ForkchoiceUpdatedResponse {
            payload_status: valid.clone(),
            payload_id: Some([0, 0, 0, 0, 0, 0, 0, 1])
        }))
    );
    // A follower with the same attributes gets the id; with others, none.
    assert_eq!(m.handle_fcu(&choice, Some(&attrs), 0), FollowerFcuStep::Done(expected));
    let mut unseen = attributes(3);
    unseen.timestamp += 24;
    assert_eq!(
        m.handle_fcu(&choice, Some(&unseen), 0),
        FollowerFcuStep::Done(ForkchoiceUpdatedResponse {
            payload_status: valid,
            payload_id: None
        })
    );
}

#[test]
fn controller_fcu_with_invalid_attributes() {
    let mut m = multiplexer();
    let choice = JsonForkchoiceStateV1 {
        head_block_hash: PARENT,
        safe_block_hash: [0x21; 32],
        finalized_block_hash: [0x31; 32],
    };
    let valid = PayloadStatus { status: Status::Valid, latest_valid_hash: None, validation_error: None };
    match m.handle_controller_fcu(
        &choice,
        Some(&attributes(3)),
        EngineReply::Answered(valid.clone()),
        seal,
    ) {
        ControllerStep::Done(Err(error)) => {
            assert_eq!(error.code, ErrorCode::InvalidPayloadAttributes);
            assert_eq!(error.code.code(), -38003);
            assert_eq!(error.message, format!("unknown parent: 0x{}", "aa".repeat(32)));
        }
        other => panic!("unexpected step: {other:?}"),
    }
    // The status was cached all the same.
    assert_eq!(m.get_cached_fcu(&choice, true), Some(valid));
}
