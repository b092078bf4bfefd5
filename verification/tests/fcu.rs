use eleel::config::{Config, FcuMatching};
use eleel::fcu::{attributes_version, AttributesVersion, FcuCache, FollowerFcuStep};
use eleel::fork::ForkSchedule;
use eleel::hash::BlockHash;
use eleel::multiplexer::{ControllerStep, EngineReply, Multiplexer};
use eleel::payload::{ExecutionPayload, ForkchoiceUpdatedResponse, PayloadStatus, Status};
use eleel::types::{ErrorCode, JsonForkchoiceStateV1};

const HEAD: BlockHash = [0x11; 32];
const SAFE: BlockHash = [0x21; 32];
const FINALIZED: BlockHash = [0x31; 32];
const UNSEEN: BlockHash = [0x2f; 32];

fn schedule() -> ForkSchedule {
    ForkSchedule {
        seconds_per_slot: 12,
        slots_per_epoch: 32,
        altair_fork_epoch: Some(0),
        bellatrix_fork_epoch: Some(0),
        capella_fork_epoch: Some(1),
        deneb_fork_epoch: Some(2),
        electra_fork_epoch: Some(3),
    }
}

fn multiplexer(matching: FcuMatching) -> Multiplexer {
    let config = Config { fcu_matching: matching, ..Config::default() };
    Multiplexer::new(config, schedule(), 1_000).unwrap()
}

fn fcu(head: BlockHash, safe: BlockHash, finalized: BlockHash) -> JsonForkchoiceStateV1 {
    JsonForkchoiceStateV1 {
        head_block_hash: head,
        safe_block_hash: safe,
        finalized_block_hash: finalized,
    }
}

fn status(status: Status, latest_valid_hash: Option<BlockHash>) -> PayloadStatus {
    PayloadStatus { status, latest_valid_hash, validation_error: None }
}

fn seal(payload: &ExecutionPayload, _root: Option<BlockHash>) -> BlockHash {
    let mut hash = payload.header().parent_hash;
    hash[0] ^= 0xff;
    hash
}

fn answered(m: &mut Multiplexer, choice: &JsonForkchoiceStateV1, s: PayloadStatus) {
    assert_eq!(
        m.handle_controller_fcu(choice, None, EngineReply::Answered(s.clone()), seal),
        ControllerStep::Done(Ok(ForkchoiceUpdatedResponse {
            payload_status: s,
            payload_id: None
        }))
    );
}

#[test]
fn controller_fcu_then_follower_fcu_loose() {
    let mut m = multiplexer(FcuMatching::Loose);
    let choice = fcu(HEAD, SAFE, FINALIZED);
    assert_eq!(
        m.handle_controller_fcu(&choice, None, EngineReply::NotAsked, seal),
        ControllerStep::AskEngine
    );
    let valid = status(Status::Valid, Some(HEAD));
    answered(&mut m, &choice, valid.clone());
    // The follower is answered at its first look into the cache.
    assert_eq!(
        m.handle_fcu(&choice, None, 0),
        FollowerFcuStep::Done(ForkchoiceUpdatedResponse {
            payload_status: valid,
            payload_id: None
        })
    );
}

#[test]
fn follower_fcu_loose_mismatch() {
    let mut m = multiplexer(FcuMatching::Loose);
    let choice = fcu(HEAD, SAFE, FINALIZED);
    answered(&mut m, &choice, status(Status::Valid, Some(HEAD)));
    let unseen = fcu(HEAD, UNSEEN, FINALIZED);
    assert_eq!(m.handle_fcu(&unseen, None, 0), FollowerFcuStep::Wait);
    assert_eq!(m.handle_fcu(&unseen, None, 999), FollowerFcuStep::Wait);
    assert_eq!(
        m.handle_fcu(&unseen, None, 1000),
        FollowerFcuStep::Done(ForkchoiceUpdatedResponse {
            payload_status: status(Status::Syncing, None),
            payload_id: None
        })
    );
    // The made-up status was not cached.
    assert_eq!(m.get_cached_fcu(&unseen, false), None);
}

#[test]
fn follower_fcu_loose_takes_safe_and_finalized_of_other_fork_choices() {
    let mut m = multiplexer(FcuMatching::Loose);
    let head2: BlockHash = [0x12; 32];
    let safe2: BlockHash = [0x22; 32];
    let finalized2: BlockHash = [0x32; 32];
    answered(&mut m, &fcu(HEAD, SAFE, FINALIZED), status(Status::Valid, Some(HEAD)));
    answered(&mut m, &fcu(head2, safe2, finalized2), status(Status::Valid, Some(head2)));
    // Head of the second, safe and finalized of the first.
    assert_eq!(
        m.get_cached_fcu(&fcu(head2, SAFE, FINALIZED), true),
        Some(status(Status::Valid, Some(head2)))
    );
    // A finalized block that was never seen.
    assert_eq!(m.get_cached_fcu(&fcu(head2, SAFE, UNSEEN), true), None);
    // A head that was never seen.
    assert_eq!(m.get_cached_fcu(&fcu(UNSEEN, SAFE, FINALIZED), false), None);
}

#[test]
fn follower_fcu_exact_and_head_only() {
    let mut exact = multiplexer(FcuMatching::Exact);
    answered(&mut exact, &fcu(HEAD, SAFE, FINALIZED), status(Status::Valid, Some(HEAD)));
    assert_eq!(exact.get_cached_fcu(&fcu(HEAD, UNSEEN, FINALIZED), false), None);
    assert_eq!(
        exact.get_cached_fcu(&fcu(HEAD, SAFE, FINALIZED), true),
        Some(status(Status::Valid, Some(HEAD)))
    );
    let mut head_only = multiplexer(FcuMatching::HeadOnly);
    answered(&mut head_only, &fcu(HEAD, SAFE, FINALIZED), status(Status::Valid, Some(HEAD)));
    assert_eq!(
        head_only.get_cached_fcu(&fcu(HEAD, UNSEEN, UNSEEN), true),
        Some(status(Status::Valid, Some(HEAD)))
    );
    assert_eq!(head_only.get_cached_fcu(&fcu(UNSEEN, SAFE, FINALIZED), false), None);
}

#[test]
fn head_matching_takes_the_most_recently_used_entry() {
    let mut m = multiplexer(FcuMatching::HeadOnly);
    answered(&mut m, &fcu(HEAD, SAFE, FINALIZED), status(Status::Invalid, None));
    answered(&mut m, &fcu(HEAD, UNSEEN, FINALIZED), status(Status::Valid, Some(HEAD)));
    assert_eq!(
        m.get_cached_fcu(&fcu(HEAD, FINALIZED, FINALIZED), true),
        Some(status(Status::Valid, Some(HEAD)))
    );
}

#[test]
fn definite_indefinite_upgrade() {
    let mut m = multiplexer(FcuMatching::Loose);
    let choice = fcu(HEAD, SAFE, FINALIZED);
    answered(&mut m, &choice, status(Status::Accepted, None));
    // Accepted is cached, but safe and finalized are not yet known.
    assert_eq!(m.get_cached_fcu(&choice, true), None);
    assert_eq!(m.get_cached_fcu(&choice, false), None);
    assert_eq!(
        m.handle_controller_fcu(&choice, None, EngineReply::NotAsked, seal),
        ControllerStep::AskEngine
    );
    answered(&mut m, &choice, status(Status::Valid, Some(HEAD)));
    assert_eq!(m.get_cached_fcu(&choice, true), Some(status(Status::Valid, Some(HEAD))));
    // The third answer changes nothing, though the controller gets it.
    answered(&mut m, &choice, status(Status::Syncing, None));
    assert_eq!(m.get_cached_fcu(&choice, true), Some(status(Status::Valid, Some(HEAD))));
    assert_eq!(
        m.handle_controller_fcu(&choice, None, EngineReply::NotAsked, seal),
        ControllerStep::Done(Ok(ForkchoiceUpdatedResponse {
            payload_status: status(Status::Valid, Some(HEAD)),
            payload_id: None
        }))
    );
}

#[test]
fn indefinite_status_is_shown_when_any_status_will_do() {
    let mut cache = FcuCache::new(4, 4, 4, FcuMatching::Exact).unwrap();
    let choice = fcu(HEAD, SAFE, FINALIZED);
    assert!(cache.register(&choice, &status(Status::Syncing, None)));
    assert_eq!(cache.lookup(&choice, true), None);
    assert_eq!(cache.lookup(&choice, false), Some(status(Status::Syncing, None)));
    assert!(cache.register(&choice, &status(Status::Accepted, None)));
    assert_eq!(cache.lookup(&choice, false), Some(status(Status::Accepted, None)));
}

#[test]
fn first_definite_status_is_kept() {
    let mut cache = FcuCache::new(4, 4, 4, FcuMatching::Exact).unwrap();
    let choice = fcu(HEAD, SAFE, FINALIZED);
    assert!(cache.register(&choice, &status(Status::Invalid, Some(FINALIZED))));
    for later in [Status::Valid, Status::Syncing, Status::Accepted, Status::InvalidBlockHash] {
        assert!(!cache.register(&choice, &status(later, None)));
        assert_eq!(cache.lookup(&choice, true), Some(status(Status::Invalid, Some(FINALIZED))));
    }
}

#[test]
fn invalid_status_does_not_make_safe_and_finalized_known() {
    let mut cache = FcuCache::new(4, 4, 4, FcuMatching::Loose).unwrap();
    let choice = fcu(HEAD, SAFE, FINALIZED);
    assert!(cache.register(&choice, &status(Status::Invalid, None)));
    assert_eq!(cache.lookup(&choice, true), None);
}

#[test]
fn fork_choice_caches_of_no_entries_are_refused() {
    assert!(FcuCache::new(0, 4, 4, FcuMatching::Loose).is_none());
    assert!(FcuCache::new(4, 0, 4, FcuMatching::Loose).is_none());
    assert!(FcuCache::new(4, 4, 0, FcuMatching::Loose).is_none());
}

#[test]
fn controller_fcu_fails_with_the_engine() {
    let mut m = multiplexer(FcuMatching::Loose);
    let choice = fcu(HEAD, SAFE, FINALIZED);
    match m.handle_controller_fcu(&choice, None, EngineReply::Failed, seal) {
        ControllerStep::Done(Err(error)) => {
            assert_eq!(error.code, ErrorCode::InvalidRequest);
            assert_eq!(error.code.code(), -32600);
            assert_eq!(error.message, "forkchoice update failed: see eleel logs");
        }
        other => panic!("unexpected step: {other:?}"),
    }
    assert_eq!(m.get_cached_fcu(&choice, false), None);
}

#[test]
fn follower_fcu_waits_for_a_definite_status() {
    let mut m = multiplexer(FcuMatching::Exact);
    let choice = fcu(HEAD, SAFE, FINALIZED);
    answered(&mut m, &choice, status(Status::Syncing, None));
    assert_eq!(m.handle_fcu(&choice, None, 500), FollowerFcuStep::Wait);
    assert_eq!(
        m.handle_fcu(&choice, None, 1000),
        FollowerFcuStep::Done(ForkchoiceUpdatedResponse {
            payload_status: status(Status::Syncing, None),
            payload_id: None
        })
    );
    answered(&mut m, &choice, status(Status::Valid, Some(HEAD)));
    assert_eq!(
        m.handle_fcu(&choice, None, 500),
        FollowerFcuStep::Done(ForkchoiceUpdatedResponse {
            payload_status: status(Status::Valid, Some(HEAD)),
            payload_id: None
        })
    );
}

#[test]
fn follower_fcu_without_a_wait_takes_what_is_cached() {
    let config = Config { fcu_wait_millis: 0, fcu_matching: FcuMatching::Exact, ..Config::default() };
    let mut m = Multiplexer::new(config, schedule(), 1_000).unwrap();
    let choice = fcu(HEAD, SAFE, FINALIZED);
    assert_eq!(
        m.handle_fcu(&choice, None, 0),
        FollowerFcuStep::Done(ForkchoiceUpdatedResponse {
            payload_status: status(Status::Syncing, None),
            payload_id: None
        })
    );
}

#[test]
fn fork_choice_cache_drops_the_least_recently_used() {
    let config = Config { fcu_cache_size: 2, fcu_matching: FcuMatching::Exact, ..Config::default() };
    let mut m = Multiplexer::new(config, schedule(), 1_000).unwrap();
    let a = fcu([1; 32], SAFE, FINALIZED);
    let b = fcu([2; 32], SAFE, FINALIZED);
    let c = fcu([3; 32], SAFE, FINALIZED);
    answered(&mut m, &a, status(Status::Valid, None));
    answered(&mut m, &b, status(Status::Valid, None));
    answered(&mut m, &c, status(Status::Valid, None));
    assert_eq!(m.get_cached_fcu(&a, false), None);
    assert_eq!(m.get_cached_fcu(&b, false), Some(status(Status::Valid, None)));
    assert_eq!(m.get_cached_fcu(&c, false), Some(status(Status::Valid, None)));
}

#[test]
fn definite_statuses() {
    assert!(Multiplexer::is_definite(&status(Status::Valid, None)));
    assert!(Multiplexer::is_definite(&status(Status::Invalid, None)));
    assert!(Multiplexer::is_definite(&status(Status::InvalidBlockHash, None)));
    assert!(!Multiplexer::is_definite(&status(Status::Accepted, None)));
    assert!(!Multiplexer::is_definite(&status(Status::Syncing, None)));
}

#[test]
fn attributes_version_follows_the_method() {
    assert_eq!(attributes_version("engine_forkchoiceUpdatedV2"), AttributesVersion::V2);
    assert_eq!(attributes_version("engine_forkchoiceUpdatedV1"), AttributesVersion::V3);
    assert_eq!(attributes_version("engine_forkchoiceUpdatedV3"), AttributesVersion::V3);
}
