//! The cache of payloads: what the engine said of the controller's payloads,
//! and which payloads are recent enough for a follower to wait for.

use crate::fork::ForkName;
use crate::hash::{key_of_hash, same_bytes, BlockHash};
use crate::multiplexer::{ControllerStep, EngineReply, Multiplexer};
use crate::payload::{NewPayloadCacheEntry, PayloadInfo, PayloadStatus};
use crate::store::{
    lemma_stored, lemma_stored_after_touched, lemma_touched, lookup, stored, touched, Cache,
    Entries, Record, RecordView,
};
use crate::text::{decimal_string, decimal_text, hex_string, hex_text, joined, same_text};
use crate::types::{ErrorCode, JsonError};
use vstd::prelude::*;
use vstd::string::StringExecFns;

verus! {

/// The entry of a block that a record holds, if it holds one.
pub open spec fn entry_in(record: Option<RecordView>) -> Option<NewPayloadCacheEntry> {
    match record {
        Some(RecordView::NewPayload(entry)) => Some(entry),
        _ => None,
    }
}

/// The block number in a record.
pub open spec fn number_in(record: RecordView) -> u64 {
    match record {
        RecordView::NewPayload(entry) => entry.block_number,
        _ => 0,
    }
}

/// The highest block number among the entries, or 0 if there are none.
pub open spec fn highest_number(entries: Entries) -> u64
    decreases entries.len(),
{
    if entries.len() == 0 {
        0
    } else {
        let rest = highest_number(entries.drop_last());
        let number = number_in(entries.last().1);
        if number > rest {
            number
        } else {
            rest
        }
    }
}

/// The highest block number is the number of no entry exceeded, and, where
/// there are entries, the number of one of them.
pub proof fn lemma_highest_number(entries: Entries)
    ensures
        forall|i: int| 0 <= i < entries.len() ==> number_in((#[trigger] entries[i]).1)
            <= highest_number(entries),
        entries.len() > 0 ==> exists|i: int|
            0 <= i < entries.len() && number_in((#[trigger] entries[i]).1) == highest_number(entries),
        entries.len() == 0 ==> highest_number(entries) == 0,
    decreases entries.len(),
{
    if entries.len() > 0 {
        let shorter = entries.drop_last();
        lemma_highest_number(shorter);
        assert forall|i: int| 0 <= i < entries.len() implies number_in((#[trigger] entries[i]).1)
            <= highest_number(entries) by {
            if i < shorter.len() {
                assert(entries[i] == shorter[i]);
            }
        }
        let last = entries.len() - 1;
        if number_in(entries.last().1) > highest_number(shorter) || shorter.len() == 0 {
            assert(number_in(entries[last].1) == highest_number(entries));
        } else {
            let w = choose|i: int|
                0 <= i < shorter.len() && number_in((#[trigger] shorter[i]).1) == highest_number(
                    shorter,
                );
            assert(entries[w] == shorter[w]);
            assert(number_in(entries[w].1) == highest_number(entries));
        }
    }
}

/// The least block number that counts as recent.
pub open spec fn recent_from(entries: Entries, cutoff: u64) -> int {
    if highest_number(entries) >= cutoff {
        highest_number(entries) - cutoff
    } else {
        0
    }
}

/// What the cache of payloads holds.
pub struct NewPayloadView {
    /// The blocks of the controller's payloads, the most recently used first.
    pub entries: Entries,
    pub capacity: nat,
    /// A payload is recent if its number is at most this far below the highest cached one.
    pub cutoff: u64,
}

impl NewPayloadView {
    pub open spec fn wf(self) -> bool {
        &&& crate::store::distinct_keys(self.entries)
        &&& self.entries.len() <= self.capacity
        &&& self.capacity > 0
    }

    /// What the cache holds for a block.
    pub open spec fn entry_of(self, block_hash: BlockHash) -> Option<NewPayloadCacheEntry> {
        entry_in(lookup(self.entries, block_hash@))
    }

    /// The status that the cache answers with for a block.
    pub open spec fn cached(self, block_hash: BlockHash, definite_only: bool) -> Option<
        PayloadStatus,
    > {
        match self.entry_of(block_hash) {
            Some(entry) => if !definite_only || entry.status.status.definite() {
                Some(entry.status)
            } else {
                None
            },
            None => None,
        }
    }

    /// The cache after a block was looked up, which is a use of its entry.
    pub open spec fn after_lookup(self, block_hash: BlockHash) -> NewPayloadView {
        NewPayloadView { entries: touched(self.entries, block_hash@), ..self }
    }

    /// Whether a block of this number is recent.
    pub open spec fn is_recent(self, block_number: u64) -> bool {
        block_number >= recent_from(self.entries, self.cutoff)
    }

    /// Whether a status from the engine is cached for the block: not where the
    /// cache holds a definite status for it.
    pub open spec fn accepts(self, block_hash: BlockHash) -> bool {
        match self.entry_of(block_hash) {
            Some(entry) => !entry.status.status.definite(),
            None => true,
        }
    }

    /// The entry that is cached for a block on the engine's answer: the number
    /// of a block stays what it was when the block was first cached.
    pub open spec fn entry_for(self, block_hash: BlockHash, status: PayloadStatus, block_number: u64)
        -> NewPayloadCacheEntry {
        NewPayloadCacheEntry {
            status,
            block_number: match self.entry_of(block_hash) {
                Some(entry) => entry.block_number,
                None => block_number,
            },
        }
    }

    /// The cache after the engine has answered the controller's payload.
    pub open spec fn inserted(self, block_hash: BlockHash, status: PayloadStatus, block_number: u64)
        -> NewPayloadView {
        if self.accepts(block_hash) {
            NewPayloadView {
                entries: stored(
                    self.entries,
                    self.capacity,
                    block_hash@,
                    RecordView::NewPayload(self.entry_for(block_hash, status, block_number)),
                ),
                ..self
            }
        } else {
            self.after_lookup(block_hash)
        }
    }
}

/// After the engine's answer the cache is well formed and holds an entry for
/// the block: the one it held, if that was definite; else the new status,
/// under the number that the block was first cached with.
pub proof fn lemma_inserted(
    view: NewPayloadView,
    block_hash: BlockHash,
    status: PayloadStatus,
    block_number: u64,
)
    requires
        view.wf(),
    ensures
        view.inserted(block_hash, status, block_number).wf(),
        view.inserted(block_hash, status, block_number).entry_of(block_hash) == (if view.accepts(
            block_hash,
        ) {
            Some(view.entry_for(block_hash, status, block_number))
        } else {
            view.entry_of(block_hash)
        }),
        view.entry_of(block_hash) matches Some(entry) ==> view.inserted(
            block_hash,
            status,
            block_number,
        ).entry_of(block_hash) matches Some(after) && after.block_number == entry.block_number,
{
    lemma_stored(
        view.entries,
        view.capacity,
        block_hash@,
        RecordView::NewPayload(view.entry_for(block_hash, status, block_number)),
    );
    lemma_touched(view.entries, block_hash@);
}

/// The cache of payloads.
pub struct NewPayloadCache {
    entries: Cache,
    cutoff: u64,
}

impl View for NewPayloadCache {
    type V = NewPayloadView;

    closed spec fn view(&self) -> NewPayloadView {
        NewPayloadView {
            entries: self.entries.entries(),
            capacity: self.entries.capacity(),
            cutoff: self.cutoff,
        }
    }
}

impl NewPayloadCache {
    pub open spec fn wf(&self) -> bool {
        self@.wf()
    }

    /// An empty cache of the given size, unless the size is zero.
    pub fn new(capacity: usize, cutoff: u64) -> (cache: Option<NewPayloadCache>)
        ensures
            cache is Some <==> capacity > 0,
            cache matches Some(c) ==> c.wf() && c@ == (NewPayloadView {
                entries: Seq::empty(),
                capacity: capacity as nat,
                cutoff,
            }),
    {
        match Cache::new(capacity) {
            Some(entries) => {
                let cache = NewPayloadCache { entries, cutoff };
                assert(cache@.entries =~= Seq::empty());
                Some(cache)
            },
            None => None,
        }
    }

    /// The status that the cache answers with for a block; with
    /// `definite_only`, none that is not definite.
    pub fn lookup(&mut self, block_hash: &BlockHash, definite_only: bool) -> (status: Option<
        PayloadStatus,
    >)
        requires
            old(self).wf(),
        ensures
            final(self).wf(),
            status == old(self)@.cached(*block_hash, definite_only),
            final(self)@ == old(self)@.after_lookup(*block_hash),
    {
        let key = key_of_hash(block_hash);
        match self.entries.get(&key) {
            Some(Record::NewPayload(existing)) => {
                if !definite_only || existing.status.status.is_definite() {
                    Some(existing.status.clone())
                } else {
                    None
                }
            },
            _ => None,
        }
    }

    /// The highest block number of any cached payload, or 0 if none is cached.
    pub fn highest_number(&self) -> (highest: u64)
        ensures
            highest == highest_number(self@.entries),
    {
        let all = self.entries.iter();
        let mut highest: u64 = 0;
        let mut i: usize = 0;
        while i < all.len()
            invariant
                i <= all.len(),
                all@.len() == self.entries.entries().len(),
                forall|k: int|
                    0 <= k < all@.len() ==> (#[trigger] all@[k]).0@ == self.entries.entries()[k].0
                        && all@[k].1@ == self.entries.entries()[k].1,
                highest == highest_number(self.entries.entries().take(i as int)),
            decreases all.len() - i,
        {
            let (_, record) = all[i];
            let number = match record {
                Record::NewPayload(entry) => entry.block_number,
                _ => 0,
            };
            proof {
                let longer = self.entries.entries().take(i + 1);
                assert(longer.drop_last() =~= self.entries.entries().take(i as int));
                assert(longer.last() == self.entries.entries()[i as int]);
                assert(all@[i as int].1@ == self.entries.entries()[i as int].1);
            }
            if number > highest {
                highest = number;
            }
            i += 1;
        }
        assert(self.entries.entries().take(all.len() as int) =~= self.entries.entries());
        highest
    }

    /// Whether a block of this number is recent: no further below the highest
    /// cached block number than the cutoff.
    pub fn is_recent(&self, block_number: u64) -> (recent: bool)
        ensures
            recent == self@.is_recent(block_number),
    {
        let highest = self.highest_number();
        let cutoff = if highest >= self.cutoff {
            highest - self.cutoff
        } else {
            0
        };
        block_number >= cutoff
    }

    /// Takes in the engine's answer to a payload of the controller. Returns
    /// whether the answer was cached.
    pub fn insert(&mut self, block_hash: &BlockHash, status: &PayloadStatus, block_number: u64) -> (cached:
        bool)
        requires
            old(self).wf(),
        ensures
            final(self).wf(),
            cached == old(self)@.accepts(*block_hash),
            final(self)@ == old(self)@.inserted(*block_hash, *status, block_number),
    {
        proof {
            lemma_inserted(self@, *block_hash, *status, block_number);
        }
        let key = key_of_hash(block_hash);
        let (definite, number) = match self.entries.get(&key) {
            Some(Record::NewPayload(existing)) => (
                existing.status.status.is_definite(),
                existing.block_number,
            ),
            _ => (false, block_number),
        };
        if definite {
            return false;
        }
        proof {
            lemma_stored_after_touched(
                old(self)@.entries,
                old(self)@.capacity,
                key@,
                RecordView::NewPayload(old(self)@.entry_for(*block_hash, *status, block_number)),
            );
        }
        self.entries.put(
            key,
            Record::NewPayload(NewPayloadCacheEntry { status: status.clone(), block_number: number }),
        );
        true
    }
}

/// Which payload a request holds, by its method and by the fork of its time.
#[derive(Clone, Copy, Debug, PartialEq, Eq, Structural)]
pub enum NewPayloadVersion {
    V1,
    V2,
    V3,
    V4,
}

/// The parameters that a request holds beside the payload.
#[derive(Clone, Copy, Debug, PartialEq, Eq)]
pub struct NewPayloadParameters {
    /// The versioned hashes of the blobs, as the second parameter.
    pub versioned_hashes: bool,
    /// The parent beacon block root, as the third parameter.
    pub parent_beacon_block_root: bool,
    /// The execution requests, as the fourth parameter.
    pub execution_requests: bool,
}

/// Version 3 of the method has three parameters and version 4 has four; every
/// other method has the payload alone. A wrong number for version 4 is
/// reported in the words for version 3.
pub open spec fn parameters_of(method: Seq<char>, count: nat) -> Result<
    NewPayloadParameters,
    Seq<char>,
> {
    if method == "engine_newPayloadV4"@ {
        if count == 4 {
            Ok(
                NewPayloadParameters {
                    versioned_hashes: true,
                    parent_beacon_block_root: true,
                    execution_requests: true,
                },
            )
        } else {
            Err("wrong number of parameters for newPayloadV3"@)
        }
    } else if method == "engine_newPayloadV3"@ {
        if count == 3 {
            Ok(
                NewPayloadParameters {
                    versioned_hashes: true,
                    parent_beacon_block_root: true,
                    execution_requests: false,
                },
            )
        } else {
            Err("wrong number of parameters for newPayloadV3"@)
        }
    } else if count == 1 {
        Ok(
            NewPayloadParameters {
                versioned_hashes: false,
                parent_beacon_block_root: false,
                execution_requests: false,
            },
        )
    } else {
        Err("wrong number of parameters for "@ + method + ": "@ + decimal_text(count))
    }
}

/// The parameters that a request of the given method holds beside the
/// payload, or why the number of its parameters is wrong.
pub fn new_payload_parameters(method: &str, count: usize) -> (r: Result<
    NewPayloadParameters,
    String,
>)
    ensures
        match r {
            Ok(parameters) => parameters_of(method@, count as nat) == Ok::<
                NewPayloadParameters,
                Seq<char>,
            >(parameters),
            Err(message) => parameters_of(method@, count as nat) == Err::<
                NewPayloadParameters,
                Seq<char>,
            >(message@),
        },
{
    if same_text(method, "engine_newPayloadV4") {
        if count != 4 {
            return Err(String::from_str("wrong number of parameters for newPayloadV3"));
        }
        Ok(
            NewPayloadParameters {
                versioned_hashes: true,
                parent_beacon_block_root: true,
                execution_requests: true,
            },
        )
    } else if same_text(method, "engine_newPayloadV3") {
        if count != 3 {
            return Err(String::from_str("wrong number of parameters for newPayloadV3"));
        }
        Ok(
            NewPayloadParameters {
                versioned_hashes: true,
                parent_beacon_block_root: true,
                execution_requests: false,
            },
        )
    } else if count == 1 {
        Ok(
            NewPayloadParameters {
                versioned_hashes: false,
                parent_beacon_block_root: false,
                execution_requests: false,
            },
        )
    } else {
        let mut message = joined("wrong number of parameters for ", method);
        message.append(": ");
        message.append(decimal_string(count as u64).as_str());
        Err(message)
    }
}

/// The version of a payload: the first that the method or the fork asks for.
pub open spec fn version_of(method: Seq<char>, fork: ForkName) -> NewPayloadVersion {
    if method == "engine_newPayloadV1"@ || fork is Bellatrix {
        NewPayloadVersion::V1
    } else if method == "engine_newPayloadV2"@ || fork is Capella {
        NewPayloadVersion::V2
    } else if method == "engine_newPayloadV3"@ || fork is Deneb {
        NewPayloadVersion::V3
    } else {
        NewPayloadVersion::V4
    }
}

/// What is to be done next for a payload of a follower.
#[derive(Debug, PartialEq, Eq)]
pub enum FollowerPayloadStep {
    /// Wait one poll interval, and come back with the time that has passed.
    Wait,
    /// Verify the versioned hashes of the payload, and come back with the result.
    VerifyVersionedHashes,
    /// Answer the follower.
    Done(Result<PayloadStatus, JsonError>),
}

/// What is known of the versioned hashes of a payload.
#[derive(Clone, Copy, Debug, PartialEq, Eq, Structural)]
pub enum VersionedHashes {
    NotVerified,
    Correct,
    Incorrect,
}

impl Multiplexer {
    /// The slot that a time lies in.
    pub fn timestamp_to_slot(&self, timestamp: u64) -> (slot: Option<u64>)
        ensures
            slot == self.spec.slot_of_timestamp(self.genesis_time, timestamp),
    {
        self.spec.timestamp_to_slot(self.genesis_time, timestamp)
    }

    /// The version of the payload in a request of the given method whose
    /// payload has the given timestamp, if it has one.
    pub fn new_payload_version(&self, method: &str, timestamp: Option<u64>) -> (r: Result<
        NewPayloadVersion,
        String,
    >)
        requires
            self.wf(),
        ensures
            match timestamp {
                None => r matches Err(message) && message@ == "timestamp value missing"@,
                Some(t) => match self.spec.slot_of_timestamp(self.genesis_time, t) {
                    None => r matches Err(message) && message@ == "invalid timestamp: "@
                        + decimal_text(t as nat),
                    Some(slot) => r == Ok::<NewPayloadVersion, String>(
                        version_of(method@, self.spec.fork_name_at_slot_spec(slot)),
                    ),
                },
            },
    {
        let timestamp = match timestamp {
            Some(t) => t,
            None => {
                return Err(String::from_str("timestamp value missing"));
            },
        };
        let slot = match self.timestamp_to_slot(timestamp) {
            Some(slot) => slot,
            None => {
                return Err(joined("invalid timestamp: ", decimal_string(timestamp).as_str()));
            },
        };
        let fork_name = self.spec.fork_name_at_slot(slot);
        if same_text(method, "engine_newPayloadV1") || fork_name == ForkName::Bellatrix {
            Ok(NewPayloadVersion::V1)
        } else if same_text(method, "engine_newPayloadV2") || fork_name == ForkName::Capella {
            Ok(NewPayloadVersion::V2)
        } else if same_text(method, "engine_newPayloadV3") || fork_name == ForkName::Deneb {
            Ok(NewPayloadVersion::V3)
        } else {
            Ok(NewPayloadVersion::V4)
        }
    }

    /// The status that the cache answers with for a block; with
    /// `definite_only`, none that is not definite.
    pub fn get_cached_payload_status(
        &mut self,
        execution_block_hash: &BlockHash,
        definite_only: bool,
    ) -> (status: Option<PayloadStatus>)
        requires
            old(self).wf(),
        ensures
            final(self).wf(),
            final(self).same_settings(old(self)),
            final(self).fcu_cache == old(self).fcu_cache,
            final(self).payload_builder == old(self).payload_builder,
            status == old(self).new_payload_cache@.cached(*execution_block_hash, definite_only),
            final(self).new_payload_cache@ == old(self).new_payload_cache@.after_lookup(
                *execution_block_hash,
            ),
    {
        self.new_payload_cache.lookup(execution_block_hash, definite_only)
    }

    /// The highest block number of any cached payload, or 0 if none is cached.
    pub fn highest_cached_payload_number(&self) -> (highest: u64)
        ensures
            highest == highest_number(self.new_payload_cache@.entries),
    {
        self.new_payload_cache.highest_number()
    }

    /// Whether a block of this number is recent: no further below the highest
    /// cached block number than the cutoff that was configured.
    pub fn is_recent_payload(&self, block_number: u64) -> (recent: bool)
        ensures
            recent == self.new_payload_cache@.is_recent(block_number),
    {
        self.new_payload_cache.is_recent(block_number)
    }

    /// One step for a payload of the controller. A definite status in the
    /// cache answers it. Else the engine is asked; its answer is cached, the
    /// block is registered with the payload builder, and the controller gets
    /// the answer. Where the engine fails, the controller gets an error.
    pub fn handle_controller_new_payload(
        &mut self,
        block_hash: &BlockHash,
        info: PayloadInfo,
        reply: EngineReply,
    ) -> (step: ControllerStep<PayloadStatus>)
        requires
            old(self).wf(),
        ensures
            final(self).wf(),
            final(self).same_settings(old(self)),
            final(self).fcu_cache == old(self).fcu_cache,
            match reply {
                EngineReply::NotAsked => {
                    &&& final(self).new_payload_cache@ == old(self).new_payload_cache@.after_lookup(
                        *block_hash,
                    )
                    &&& final(self).payload_builder == old(self).payload_builder
                    &&& step == (match old(self).new_payload_cache@.cached(*block_hash, true) {
                        Some(status) => ControllerStep::Done(Ok(status)),
                        None => ControllerStep::AskEngine,
                    })
                },
                EngineReply::Answered(status) => {
                    &&& final(self).new_payload_cache@ == old(self).new_payload_cache@.inserted(
                        *block_hash,
                        status,
                        info.block_number,
                    )
                    &&& final(self).payload_builder@ == old(self).payload_builder@.canonical(
                        *block_hash,
                        info,
                        status.status,
                    )
                    &&& step == ControllerStep::Done(Ok(status))
                },
                EngineReply::Failed => {
                    &&& final(self).new_payload_cache == old(self).new_payload_cache
                    &&& final(self).payload_builder == old(self).payload_builder
                    &&& step matches ControllerStep::Done(Err(error))
                    &&& error.code == ErrorCode::InvalidRequest
                    &&& error.message@ == "payload verification failed: see eleel logs"@
                },
            },
    {
        match reply {
            EngineReply::NotAsked => {
                match self.get_cached_payload_status(block_hash, true) {
                    Some(status) => ControllerStep::Done(Ok(status)),
                    None => ControllerStep::AskEngine,
                }
            },
            EngineReply::Answered(status) => {
                // Update the cache of payloads, then the payload builder.
                self.new_payload_cache.insert(block_hash, &status, info.block_number);
                self.register_canonical_payload(block_hash, info, status.status);
                ControllerStep::Done(Ok(status))
            },
            EngineReply::Failed => ControllerStep::Done(
                Err(
                    JsonError {
                        code: ErrorCode::InvalidRequest,
                        message: String::from_str("payload verification failed: see eleel logs"),
                    },
                ),
            ),
        }
    }

    /// What a follower's payload is answered with once nothing is waited for:
    /// whatever status is cached; else, once the versioned hashes are verified,
    /// a status of syncing, which is not cached.
    pub open spec fn follower_payload_answer(
        cached: Option<PayloadStatus>,
        hashes: VersionedHashes,
        step: FollowerPayloadStep,
    ) -> bool {
        match cached {
            Some(status) => step == FollowerPayloadStep::Done(Ok(status)),
            None => match hashes {
                VersionedHashes::NotVerified => step is VerifyVersionedHashes,
                VersionedHashes::Correct => step == FollowerPayloadStep::Done(
                    Ok(PayloadStatus::syncing_spec()),
                ),
                VersionedHashes::Incorrect => step matches FollowerPayloadStep::Done(Err(error))
                    && error.code == ErrorCode::InvalidRequest && error.message@
                    == "incorrect versioned hashes"@,
            },
        }
    }

    /// One step for a payload of a follower. `computed_hash` is the hash of
    /// the payload as it was computed from its header; `is_recent` says
    /// whether the payload was recent when it came in; `elapsed_millis` is
    /// the time that has passed since.
    ///
    /// A payload whose block hash is not the computed one is refused. For a
    /// recent payload a definite status is waited for, as long as was
    /// configured. After that, and at once for a payload that is not recent,
    /// whatever status is cached answers; where none is, the versioned hashes
    /// are verified and the answer is syncing.
    pub fn handle_new_payload(
        &mut self,
        block_hash: &BlockHash,
        computed_hash: &BlockHash,
        is_recent: bool,
        elapsed_millis: u128,
        hashes: VersionedHashes,
    ) -> (step: FollowerPayloadStep)
        requires
            old(self).wf(),
        ensures
            final(self).wf(),
            final(self).same_settings(old(self)),
            final(self).fcu_cache == old(self).fcu_cache,
            final(self).payload_builder == old(self).payload_builder,
            !is_recent ==> !(step is Wait),
            if *block_hash != *computed_hash {
                &&& final(self).new_payload_cache == old(self).new_payload_cache
                &&& step matches FollowerPayloadStep::Done(Err(error))
                &&& error.code == ErrorCode::InvalidRequest
                &&& error.message@ == "incorrect block hash "@ + hex_text(block_hash@)
                    + ": computed "@ + hex_text(computed_hash@)
            } else {
                &&& final(self).new_payload_cache@ == old(self).new_payload_cache@.after_lookup(
                    *block_hash,
                )
                &&& if is_recent && elapsed_millis < old(self).config.new_payload_wait_millis {
                    step == (match old(self).new_payload_cache@.cached(*block_hash, true) {
                        Some(status) => FollowerPayloadStep::Done(Ok(status)),
                        None => FollowerPayloadStep::Wait,
                    })
                } else {
                    Self::follower_payload_answer(
                        old(self).new_payload_cache@.cached(*block_hash, false),
                        hashes,
                        step,
                    )
                }
            },
    {
        // Check the block hash before the cache is keyed with it.
        if !same_bytes(block_hash, computed_hash) {
            let mut message = joined("incorrect block hash ", hex_string(block_hash).as_str());
            message.append(": computed ");
            message.append(hex_string(computed_hash).as_str());
            return FollowerPayloadStep::Done(
                Err(JsonError { code: ErrorCode::InvalidRequest, message }),
            );
        }
        // For a recent payload, wait a short time for a definite status: the
        // engine is likely to be at work on the payload of the controller.
        if is_recent && elapsed_millis < self.config.new_payload_wait_millis {
            return match self.get_cached_payload_status(block_hash, true) {
                Some(status) => FollowerPayloadStep::Done(Ok(status)),
                None => FollowerPayloadStep::Wait,
            };
        }
        // Take any status from the cache, or fall back on syncing.
        match self.get_cached_payload_status(block_hash, false) {
            Some(status) => FollowerPayloadStep::Done(Ok(status)),
            None => match hashes {
                VersionedHashes::NotVerified => FollowerPayloadStep::VerifyVersionedHashes,
                VersionedHashes::Correct => FollowerPayloadStep::Done(Ok(PayloadStatus::syncing())),
                VersionedHashes::Incorrect => FollowerPayloadStep::Done(
                    Err(
                        JsonError {
                            code: ErrorCode::InvalidRequest,
                            message: String::from_str("incorrect versioned hashes"),
                        },
                    ),
                ),
            },
        }
    }
}

} // verus!
