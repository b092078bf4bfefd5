//! The cache of fork choices: what the controller's fork choices were answered
//! with, and which of them answers a follower's.

use crate::config::FcuMatching;
use crate::hash::{extend_with, key_of_hash, lemma_same_array, lemma_same_parts, BlockHash};
use crate::multiplexer::{ControllerStep, EngineReply, Multiplexer};
use crate::payload::{
    ExecutionPayload, ForkchoiceUpdatedResponse, PayloadAttributes, PayloadStatus, Status,
};
use crate::store::{
    has_key, lemma_stored, lemma_stored_after_touched, lemma_touched, lookup, stored, touched,
    Cache, Entries, Record, RecordView,
};
use crate::text::same_text;
use crate::types::{ErrorCode, JsonError, JsonForkchoiceStateV1};
use vstd::prelude::*;
use vstd::string::StringExecFns;

verus! {

/// The key of a fork choice: its head, its safe and its finalized block hash.
pub open spec fn fcu_key(fcu: JsonForkchoiceStateV1) -> Seq<u8> {
    fcu.head_block_hash@ + fcu.safe_block_hash@ + fcu.finalized_block_hash@
}

/// Fork choices with the same key are the same.
pub proof fn lemma_fcu_key_injective(a: JsonForkchoiceStateV1, b: JsonForkchoiceStateV1)
    requires
        fcu_key(a) == fcu_key(b),
    ensures
        a == b,
{
    lemma_same_parts(
        a.head_block_hash@ + a.safe_block_hash@,
        a.finalized_block_hash@,
        b.head_block_hash@ + b.safe_block_hash@,
        b.finalized_block_hash@,
    );
    lemma_same_parts(
        a.head_block_hash@,
        a.safe_block_hash@,
        b.head_block_hash@,
        b.safe_block_hash@,
    );
    lemma_same_array(a.head_block_hash, b.head_block_hash);
    lemma_same_array(a.safe_block_hash, b.safe_block_hash);
    lemma_same_array(a.finalized_block_hash, b.finalized_block_hash);
}

/// The head block hash in a key.
pub open spec fn head_of(key: Seq<u8>) -> Seq<u8> {
    if key.len() >= 32 {
        key.subrange(0, 32)
    } else {
        key
    }
}

/// The entry at `i` is the first one whose head is `head`.
pub open spec fn is_first_with_head(entries: Entries, head: Seq<u8>, i: int) -> bool {
    &&& 0 <= i < entries.len()
    &&& head_of(entries[i].0) == head
    &&& forall|j: int| 0 <= j < i ==> head_of((#[trigger] entries[j]).0) != head
}

/// The place of the first entry whose head is `head`.
pub open spec fn first_with_head(entries: Entries, head: Seq<u8>) -> Option<int> {
    if exists|i: int| is_first_with_head(entries, head, i) {
        Some(choose|i: int| is_first_with_head(entries, head, i))
    } else {
        None
    }
}

proof fn lemma_first_with_head(entries: Entries, head: Seq<u8>, i: int)
    requires
        is_first_with_head(entries, head, i),
    ensures
        first_with_head(entries, head) == Some(i),
{
    let c = choose|c: int| is_first_with_head(entries, head, c);
    if c < i {
        assert(head_of(entries[c].0) != head);
    } else if i < c {
        assert(head_of(entries[i].0) != head);
    }
}

proof fn lemma_none_with_head(entries: Entries, head: Seq<u8>)
    requires
        forall|j: int| 0 <= j < entries.len() ==> head_of((#[trigger] entries[j]).0) != head,
    ensures
        first_with_head(entries, head) is None,
{
    if exists|i: int| is_first_with_head(entries, head, i) {
        let c = choose|c: int| is_first_with_head(entries, head, c);
        assert(head_of(entries[c].0) != head);
    }
}

/// The status that a record holds, if it holds one.
pub open spec fn status_in(record: Option<RecordView>) -> Option<PayloadStatus> {
    match record {
        Some(RecordView::Status(status)) => Some(status),
        _ => None,
    }
}

/// What the cache of fork choices holds.
pub struct FcuView {
    /// The fork choices of the controller and their statuses, the most recently used first.
    pub entries: Entries,
    pub capacity: nat,
    /// The safe blocks of the fork choices that were cached as valid.
    pub justified: Entries,
    pub justified_capacity: nat,
    /// The finalized blocks of the fork choices that were cached as valid.
    pub finalized: Entries,
    pub finalized_capacity: nat,
    pub matching: FcuMatching,
}

impl FcuView {
    pub open spec fn wf(self) -> bool {
        &&& crate::store::distinct_keys(self.entries)
        &&& self.entries.len() <= self.capacity
        &&& self.capacity > 0
        &&& crate::store::distinct_keys(self.justified)
        &&& self.justified.len() <= self.justified_capacity
        &&& self.justified_capacity > 0
        &&& crate::store::distinct_keys(self.finalized)
        &&& self.finalized.len() <= self.finalized_capacity
        &&& self.finalized_capacity > 0
    }

    /// The status that the cache holds for exactly this fork choice.
    pub open spec fn status_of(self, fcu: JsonForkchoiceStateV1) -> Option<PayloadStatus> {
        status_in(lookup(self.entries, fcu_key(fcu)))
    }

    /// The status of the entry that answers for a fork choice: under exact
    /// matching the entry of the same three hashes, else the first entry of
    /// the same head.
    pub open spec fn found(self, fcu: JsonForkchoiceStateV1) -> Option<PayloadStatus> {
        match self.matching {
            FcuMatching::Exact => self.status_of(fcu),
            _ => match first_with_head(self.entries, fcu.head_block_hash@) {
                Some(i) => status_in(Some(self.entries[i].1)),
                None => None,
            },
        }
    }

    /// Under loose matching, the safe and the finalized block must be known
    /// from fork choices that were cached as valid.
    pub open spec fn safe_and_finalized_accepted(self, fcu: JsonForkchoiceStateV1) -> bool {
        self.matching is Loose ==> has_key(self.justified, fcu.safe_block_hash@) && has_key(
            self.finalized,
            fcu.finalized_block_hash@,
        )
    }

    /// The status that a fork choice is answered with from the cache.
    pub open spec fn cached(self, fcu: JsonForkchoiceStateV1, definite_only: bool) -> Option<
        PayloadStatus,
    > {
        match self.found(fcu) {
            Some(status) => if self.safe_and_finalized_accepted(fcu) && (!definite_only
                || status.status.definite()) {
                Some(status)
            } else {
                None
            },
            None => None,
        }
    }

    /// The cache after a fork choice was looked up: exact matching is a use of its entry.
    pub open spec fn after_lookup(self, fcu: JsonForkchoiceStateV1) -> FcuView {
        if self.matching is Exact {
            FcuView { entries: touched(self.entries, fcu_key(fcu)), ..self }
        } else {
            self
        }
    }

    /// Whether a status from the engine is cached for the fork choice: not
    /// where the cache holds a definite status for it.
    pub open spec fn accepts(self, fcu: JsonForkchoiceStateV1) -> bool {
        match self.status_of(fcu) {
            Some(status) => !status.status.definite(),
            None => true,
        }
    }

    /// The cache after the engine has answered the controller's fork choice
    /// with `status`. Where the status is cached and valid, the safe and the
    /// finalized block are remembered too. Where it is not cached, the old
    /// entry was still used.
    pub open spec fn registered(self, fcu: JsonForkchoiceStateV1, status: PayloadStatus) -> FcuView {
        if self.accepts(fcu) {
            let entries = stored(
                self.entries,
                self.capacity,
                fcu_key(fcu),
                RecordView::Status(status),
            );
            if status.status is Valid {
                FcuView {
                    entries,
                    justified: stored(
                        self.justified,
                        self.justified_capacity,
                        fcu.safe_block_hash@,
                        RecordView::Seen,
                    ),
                    finalized: stored(
                        self.finalized,
                        self.finalized_capacity,
                        fcu.finalized_block_hash@,
                        RecordView::Seen,
                    ),
                    ..self
                }
            } else {
                FcuView { entries, ..self }
            }
        } else {
            FcuView { entries: touched(self.entries, fcu_key(fcu)), ..self }
        }
    }

    /// The cache after the engine has answered the same fork choice with each
    /// of the statuses in turn.
    pub open spec fn registered_all(
        self,
        fcu: JsonForkchoiceStateV1,
        statuses: Seq<PayloadStatus>,
    ) -> FcuView
        decreases statuses.len(),
    {
        if statuses.len() == 0 {
            self
        } else {
            self.registered_all(fcu, statuses.drop_last()).registered(fcu, statuses.last())
        }
    }
}

/// Registering keeps the cache well formed.
pub proof fn lemma_registered_wf(view: FcuView, fcu: JsonForkchoiceStateV1, status: PayloadStatus)
    requires
        view.wf(),
    ensures
        view.registered(fcu, status).wf(),
{
    lemma_stored(view.entries, view.capacity, fcu_key(fcu), RecordView::Status(status));
    lemma_stored(view.justified, view.justified_capacity, fcu.safe_block_hash@, RecordView::Seen);
    lemma_stored(
        view.finalized,
        view.finalized_capacity,
        fcu.finalized_block_hash@,
        RecordView::Seen,
    );
    lemma_touched(view.entries, fcu_key(fcu));
}

/// After the engine's answer to a fork choice, the cache holds a status for
/// it: the one it held, if that was definite, else the new one.
pub proof fn lemma_registered_status(
    view: FcuView,
    fcu: JsonForkchoiceStateV1,
    status: PayloadStatus,
)
    requires
        view.wf(),
    ensures
        view.registered(fcu, status).status_of(fcu) == (if view.accepts(fcu) {
            Some(status)
        } else {
            view.status_of(fcu)
        }),
{
    lemma_stored(view.entries, view.capacity, fcu_key(fcu), RecordView::Status(status));
    lemma_touched(view.entries, fcu_key(fcu));
}

/// A valid answer of the engine that is cached answers the same fork choice
/// from then on, however fork choices are matched.
pub proof fn lemma_valid_answer_is_cached(
    view: FcuView,
    fcu: JsonForkchoiceStateV1,
    status: PayloadStatus,
    definite_only: bool,
)
    requires
        view.wf(),
        view.accepts(fcu),
        status.status is Valid,
    ensures
        view.registered(fcu, status).cached(fcu, definite_only) == Some(status),
{
    let after = view.registered(fcu, status);
    lemma_stored(view.entries, view.capacity, fcu_key(fcu), RecordView::Status(status));
    lemma_stored(view.justified, view.justified_capacity, fcu.safe_block_hash@, RecordView::Seen);
    lemma_stored(
        view.finalized,
        view.finalized_capacity,
        fcu.finalized_block_hash@,
        RecordView::Seen,
    );
    assert(head_of(fcu_key(fcu)) =~= fcu.head_block_hash@);
    lemma_first_with_head(after.entries, fcu.head_block_hash@, 0);
    assert(crate::store::holds_at(after.justified, fcu.safe_block_hash@, 0));
    assert(crate::store::holds_at(after.finalized, fcu.finalized_block_hash@, 0));
}

/// A definite status, once cached for a fork choice, is what the cache holds
/// for it after any further answers of the engine to that fork choice.
pub proof fn lemma_definite_status_stays(
    view: FcuView,
    fcu: JsonForkchoiceStateV1,
    statuses: Seq<PayloadStatus>,
)
    requires
        view.wf(),
        view.status_of(fcu) matches Some(status) && status.status.definite(),
    ensures
        view.registered_all(fcu, statuses).wf(),
        view.registered_all(fcu, statuses).status_of(fcu) == view.status_of(fcu),
    decreases statuses.len(),
{
    if statuses.len() > 0 {
        lemma_definite_status_stays(view, fcu, statuses.drop_last());
        let before = view.registered_all(fcu, statuses.drop_last());
        lemma_registered_wf(before, fcu, statuses.last());
        lemma_registered_status(before, fcu, statuses.last());
    }
}

/// Over any answers of the engine to one fork choice, the cache holds at most
/// one definite status for it: what it holds after some of the answers, if
/// definite, it holds after more of them.
pub proof fn lemma_one_definite_status(
    view: FcuView,
    fcu: JsonForkchoiceStateV1,
    statuses: Seq<PayloadStatus>,
    earlier: int,
    later: int,
)
    requires
        view.wf(),
        0 <= earlier <= later <= statuses.len(),
        view.registered_all(fcu, statuses.take(earlier)).status_of(fcu) matches Some(status)
            && status.status.definite(),
    ensures
        view.registered_all(fcu, statuses.take(later)).status_of(fcu) == view.registered_all(
            fcu,
            statuses.take(earlier),
        ).status_of(fcu),
    decreases later - earlier,
{
    lemma_registered_all_wf(view, fcu, statuses.take(earlier));
    if earlier < later {
        lemma_one_definite_status(view, fcu, statuses, earlier, later - 1);
        let before = view.registered_all(fcu, statuses.take(later - 1));
        lemma_registered_all_wf(view, fcu, statuses.take(later - 1));
        assert(statuses.take(later).drop_last() =~= statuses.take(later - 1));
        assert(statuses.take(later).last() == statuses[later - 1]);
        lemma_registered_status(before, fcu, statuses[later - 1]);
    }
}

/// Any answers of the engine keep the cache well formed.
pub proof fn lemma_registered_all_wf(
    view: FcuView,
    fcu: JsonForkchoiceStateV1,
    statuses: Seq<PayloadStatus>,
)
    requires
        view.wf(),
    ensures
        view.registered_all(fcu, statuses).wf(),
    decreases statuses.len(),
{
    if statuses.len() > 0 {
        lemma_registered_all_wf(view, fcu, statuses.drop_last());
        lemma_registered_wf(view.registered_all(fcu, statuses.drop_last()), fcu, statuses.last());
    }
}

/// The key of a fork choice.
pub fn key_of_fcu(fcu: &JsonForkchoiceStateV1) -> (key: Vec<u8>)
    ensures
        key@ == fcu_key(*fcu),
{
    let mut key: Vec<u8> = Vec::new();
    extend_with(&mut key, &fcu.head_block_hash);
    extend_with(&mut key, &fcu.safe_block_hash);
    extend_with(&mut key, &fcu.finalized_block_hash);
    assert(key@ =~= fcu_key(*fcu));
    key
}

/// Whether the head in a key is the given one.
fn key_has_head(key: &Vec<u8>, head: &BlockHash) -> (r: bool)
    ensures
        r == (head_of(key@) == head@),
{
    if key.len() < 32 {
        return false;
    }
    let mut i: usize = 0;
    while i < 32
        invariant
            i <= 32,
            key.len() >= 32,
            forall|j: int| 0 <= j < i ==> key[j] == head[j],
        decreases 32 - i,
    {
        if key[i] != head[i] {
            assert(head_of(key@)[i as int] != head@[i as int]);
            return false;
        }
        i += 1;
    }
    assert(head_of(key@) =~= head@);
    true
}

/// The cache of fork choices, with the sets of safe and of finalized blocks.
pub struct FcuCache {
    entries: Cache,
    justified: Cache,
    finalized: Cache,
    matching: FcuMatching,
}

impl View for FcuCache {
    type V = FcuView;

    closed spec fn view(&self) -> FcuView {
        FcuView {
            entries: self.entries.entries(),
            capacity: self.entries.capacity(),
            justified: self.justified.entries(),
            justified_capacity: self.justified.capacity(),
            finalized: self.finalized.entries(),
            finalized_capacity: self.finalized.capacity(),
            matching: self.matching,
        }
    }
}

impl FcuCache {
    pub open spec fn wf(&self) -> bool {
        self@.wf()
    }

    /// Empty caches of the given sizes, unless one of the sizes is zero.
    pub fn new(
        capacity: usize,
        justified_capacity: usize,
        finalized_capacity: usize,
        matching: FcuMatching,
    ) -> (cache: Option<FcuCache>)
        ensures
            cache is Some <==> capacity > 0 && justified_capacity > 0 && finalized_capacity > 0,
            cache matches Some(c) ==> c.wf() && c@ == (FcuView {
                entries: Seq::empty(),
                capacity: capacity as nat,
                justified: Seq::empty(),
                justified_capacity: justified_capacity as nat,
                finalized: Seq::empty(),
                finalized_capacity: finalized_capacity as nat,
                matching,
            }),
    {
        let entries = match Cache::new(capacity) {
            Some(c) => c,
            None => {
                return None;
            },
        };
        let justified = match Cache::new(justified_capacity) {
            Some(c) => c,
            None => {
                return None;
            },
        };
        let finalized = match Cache::new(finalized_capacity) {
            Some(c) => c,
            None => {
                return None;
            },
        };
        let cache = FcuCache { entries, justified, finalized, matching };
        assert(cache@.entries =~= Seq::empty());
        assert(cache@.justified =~= Seq::empty());
        assert(cache@.finalized =~= Seq::empty());
        Some(cache)
    }

    /// The status of the entry that answers for a fork choice.
    fn find(&mut self, fcu: &JsonForkchoiceStateV1) -> (found: Option<PayloadStatus>)
        requires
            old(self).wf(),
        ensures
            final(self).wf(),
            found == old(self)@.found(*fcu),
            final(self)@ == old(self)@.after_lookup(*fcu),
    {
        match self.matching {
            FcuMatching::Exact => {
                let key = key_of_fcu(fcu);
                match self.entries.get(&key) {
                    Some(Record::Status(status)) => Some(status.clone()),
                    _ => None,
                }
            },
            FcuMatching::Loose | FcuMatching::HeadOnly => {
                let all = self.entries.iter();
                let mut i: usize = 0;
                while i < all.len()
                    invariant
                        i <= all.len(),
                        *self == *old(self),
                        self.wf(),
                        !(self.matching is Exact),
                        all@.len() == self.entries.entries().len(),
                        forall|k: int|
                            0 <= k < all@.len() ==> (#[trigger] all@[k]).0@
                                == self.entries.entries()[k].0 && all@[k].1@
                                == self.entries.entries()[k].1,
                        forall|j: int|
                            0 <= j < i ==> head_of((#[trigger] self.entries.entries()[j]).0)
                                != fcu.head_block_hash@,
                    decreases all.len() - i,
                {
                    let (key, record) = all[i];
                    if key_has_head(key, &fcu.head_block_hash) {
                        proof {
                            assert(all@[i as int].0@ == self.entries.entries()[i as int].0);
                            assert(all@[i as int].1@ == self.entries.entries()[i as int].1);
                            lemma_first_with_head(
                                self.entries.entries(),
                                fcu.head_block_hash@,
                                i as int,
                            );
                        }
                        return match record {
                            Record::Status(status) => Some(status.clone()),
                            _ => None,
                        };
                    }
                    assert(all@[i as int].0@ == self.entries.entries()[i as int].0);
                    i += 1;
                }
                proof {
                    lemma_none_with_head(self.entries.entries(), fcu.head_block_hash@);
                }
                None
            },
        }
    }

    /// The status that a fork choice is answered with from the cache; with
    /// `definite_only`, none that is not definite.
    pub fn lookup(&mut self, fcu: &JsonForkchoiceStateV1, definite_only: bool) -> (status: Option<
        PayloadStatus,
    >)
        requires
            old(self).wf(),
        ensures
            final(self).wf(),
            status == old(self)@.cached(*fcu, definite_only),
            final(self)@ == old(self)@.after_lookup(*fcu),
    {
        let existing_status = match self.find(fcu) {
            Some(status) => status,
            None => {
                return None;
            },
        };
        let just_and_fin_ok = match self.matching {
            FcuMatching::Exact | FcuMatching::HeadOnly => true,
            FcuMatching::Loose => {
                let safe = key_of_hash(&fcu.safe_block_hash);
                let finalized = key_of_hash(&fcu.finalized_block_hash);
                self.justified.contains(&safe) && self.finalized.contains(&finalized)
            },
        };
        let definite_enough = !definite_only || existing_status.status.is_definite();
        if just_and_fin_ok && definite_enough {
            Some(existing_status)
        } else {
            None
        }
    }

    /// Takes in the engine's answer to a fork choice of the controller.
    /// Returns whether the answer was cached.
    pub fn register(&mut self, fcu: &JsonForkchoiceStateV1, status: &PayloadStatus) -> (cached:
        bool)
        requires
            old(self).wf(),
        ensures
            final(self).wf(),
            cached == old(self)@.accepts(*fcu),
            final(self)@ == old(self)@.registered(*fcu, *status),
    {
        proof {
            lemma_registered_wf(self@, *fcu, *status);
        }
        let key = key_of_fcu(fcu);
        let definite = match self.entries.get(&key) {
            Some(Record::Status(existing)) => existing.status.is_definite(),
            _ => false,
        };
        if definite {
            return false;
        }
        proof {
            let before = old(self)@.entries;
            lemma_touched(before, key@);
            lemma_stored_after_touched(before, old(self)@.capacity, key@, RecordView::Status(*status));
        }
        self.entries.put(key, Record::Status(status.clone()));
        if status.status == Status::Valid {
            self.justified.put(key_of_hash(&fcu.safe_block_hash), Record::Seen);
            self.finalized.put(key_of_hash(&fcu.finalized_block_hash), Record::Seen);
        }
        true
    }
}

/// Which payload attributes a fork choice of the controller holds.
#[derive(Clone, Copy, Debug, PartialEq, Eq, Structural)]
pub enum AttributesVersion {
    V2,
    V3,
}

/// The version of the payload attributes in a fork choice of the controller:
/// version 2 of the method holds version 2 of them, every other method version 3.
pub fn attributes_version(method: &str) -> (version: AttributesVersion)
    ensures
        version == (if method@ == "engine_forkchoiceUpdatedV2"@ {
            AttributesVersion::V2
        } else {
            AttributesVersion::V3
        }),
{
    if same_text(method, "engine_forkchoiceUpdatedV2") {
        AttributesVersion::V2
    } else {
        AttributesVersion::V3
    }
}

/// What is to be done next for a fork choice of a follower.
#[derive(Debug, PartialEq, Eq)]
pub enum FollowerFcuStep {
    /// Wait one poll interval, and come back with the time that has passed.
    Wait,
    /// Answer the follower.
    Done(ForkchoiceUpdatedResponse),
}

impl Multiplexer {
    pub fn is_definite(status: &PayloadStatus) -> (definite: bool)
        ensures
            definite == status.status.definite(),
    {
        status.status.is_definite()
    }

    /// The status that a fork choice is answered with from the cache; with
    /// `definite_only`, none that is not definite.
    pub fn get_cached_fcu(&mut self, fcu: &JsonForkchoiceStateV1, definite_only: bool) -> (status:
        Option<PayloadStatus>)
        requires
            old(self).wf(),
        ensures
            final(self).wf(),
            final(self).same_settings(old(self)),
            final(self).new_payload_cache == old(self).new_payload_cache,
            final(self).payload_builder == old(self).payload_builder,
            status == old(self).fcu_cache@.cached(*fcu, definite_only),
            final(self).fcu_cache@ == old(self).fcu_cache@.after_lookup(*fcu),
    {
        self.fcu_cache.lookup(fcu, definite_only)
    }

    /// The answer to a fork choice of the controller whose status is
    /// `status`, from `self` to `after`: without payload attributes the status
    /// alone; with them, they are registered on the head, and the answer holds
    /// their payload id, or it is the error that they are invalid.
    pub open spec fn controller_fcu_answer<F: Fn(&ExecutionPayload, Option<BlockHash>) -> BlockHash>(
        &self,
        after: &Multiplexer,
        fcu: JsonForkchoiceStateV1,
        payload_attributes: Option<&PayloadAttributes>,
        seal: F,
        status: PayloadStatus,
        step: ControllerStep<ForkchoiceUpdatedResponse>,
    ) -> bool {
        match payload_attributes {
            None => {
                &&& after.payload_builder@ == self.payload_builder@
                &&& step == ControllerStep::Done(
                    Ok(ForkchoiceUpdatedResponse { payload_status: status, payload_id: None }),
                )
            },
            Some(attributes) => match step {
                ControllerStep::Done(Ok(response)) => {
                    &&& response.payload_status == status
                    &&& response.payload_id matches Some(id)
                    &&& self.registers_attributes(
                        after,
                        fcu.head_block_hash,
                        attributes,
                        seal,
                        Ok(id),
                    )
                },
                ControllerStep::Done(Err(error)) => {
                    &&& error.code == ErrorCode::InvalidPayloadAttributes
                    &&& self.registers_attributes(
                        after,
                        fcu.head_block_hash,
                        attributes,
                        seal,
                        Err(error.message),
                    )
                },
                ControllerStep::AskEngine => false,
            },
        }
    }

    /// One step for a fork choice of the controller. A definite status in
    /// the cache answers it. Else the engine is asked, without the payload
    /// attributes; its answer is taken into the cache. Where the engine fails,
    /// the controller gets an error. Payload attributes are registered with
    /// the payload builder whether the status came from the cache or from the
    /// engine; `seal` gives the block hash of a payload that is built.
    pub fn handle_controller_fcu<F: Fn(&ExecutionPayload, Option<BlockHash>) -> BlockHash>(
        &mut self,
        fcu: &JsonForkchoiceStateV1,
        payload_attributes: Option<&PayloadAttributes>,
        reply: EngineReply,
        seal: F,
    ) -> (step: ControllerStep<ForkchoiceUpdatedResponse>)
        requires
            old(self).wf(),
            forall|payload: &ExecutionPayload, root: Option<BlockHash>| #[trigger]
                call_requires(seal, (payload, root)),
        ensures
            final(self).wf(),
            final(self).same_settings(old(self)),
            final(self).new_payload_cache == old(self).new_payload_cache,
            match reply {
                EngineReply::NotAsked => {
                    &&& final(self).fcu_cache@ == old(self).fcu_cache@.after_lookup(*fcu)
                    &&& match old(self).fcu_cache@.cached(*fcu, true) {
                        Some(status) => old(self).controller_fcu_answer(
                            final(self),
                            *fcu,
                            payload_attributes,
                            seal,
                            status,
                            step,
                        ),
                        None => step is AskEngine && final(self).payload_builder == old(
                            self,
                        ).payload_builder,
                    }
                },
                EngineReply::Answered(status) => {
                    &&& final(self).fcu_cache@ == old(self).fcu_cache@.registered(*fcu, status)
                    &&& old(self).controller_fcu_answer(
                        final(self),
                        *fcu,
                        payload_attributes,
                        seal,
                        status,
                        step,
                    )
                },
                EngineReply::Failed => {
                    &&& final(self).fcu_cache == old(self).fcu_cache
                    &&& final(self).payload_builder == old(self).payload_builder
                    &&& step matches ControllerStep::Done(Err(error))
                    &&& error.code == ErrorCode::InvalidRequest
                    &&& error.message@ == "forkchoice update failed: see eleel logs"@
                },
            },
    {
        let head_hash = fcu.head_block_hash;
        let payload_status = match reply {
            EngineReply::NotAsked => match self.get_cached_fcu(fcu, true) {
                Some(status) => status,
                None => {
                    return ControllerStep::AskEngine;
                },
            },
            EngineReply::Answered(status) => {
                self.fcu_cache.register(fcu, &status);
                status
            },
            EngineReply::Failed => {
                return ControllerStep::Done(
                    Err(
                        JsonError {
                            code: ErrorCode::InvalidRequest,
                            message: String::from_str("forkchoice update failed: see eleel logs"),
                        },
                    ),
                );
            },
        };
        // Payload attributes of the controller are registered with the payload
        // builder even if the status of the fork choice was cached already: the
        // controller may send a fork choice first without and then with them.
        let payload_id = match payload_attributes {
            Some(attributes) => match self.register_attributes(head_hash, attributes, seal) {
                Ok(id) => Some(id),
                Err(message) => {
                    return ControllerStep::Done(
                        Err(JsonError { code: ErrorCode::InvalidPayloadAttributes, message }),
                    );
                },
            },
            None => None,
        };
        ControllerStep::Done(Ok(ForkchoiceUpdatedResponse { payload_status, payload_id }))
    }

    /// One step for a fork choice of a follower, `elapsed_millis` after it
    /// came in. A definite status is waited for, as long as was configured.
    /// After that, whatever status is cached answers; where none is, the
    /// answer is syncing, which is not cached. With payload attributes the
    /// answer holds the id that they are registered under, if they are.
    pub fn handle_fcu(
        &mut self,
        fcu: &JsonForkchoiceStateV1,
        payload_attributes: Option<&PayloadAttributes>,
        elapsed_millis: u128,
    ) -> (step: FollowerFcuStep)
        requires
            old(self).wf(),
        ensures
            final(self).wf(),
            final(self).same_settings(old(self)),
            final(self).new_payload_cache == old(self).new_payload_cache,
            final(self).fcu_cache@ == old(self).fcu_cache@.after_lookup(*fcu),
            ({
                let waiting = elapsed_millis < old(self).config.fcu_wait_millis;
                let cached = old(self).fcu_cache@.cached(*fcu, waiting);
                if waiting && cached is None {
                    step is Wait && final(self).payload_builder == old(self).payload_builder
                } else {
                    &&& step matches FollowerFcuStep::Done(response)
                    &&& response.payload_status == (match cached {
                        Some(status) => status,
                        None => PayloadStatus::syncing_spec(),
                    })
                    &&& match payload_attributes {
                        Some(attributes) => {
                            &&& response.payload_id == old(self).payload_builder@.known_id(
                                fcu.head_block_hash,
                                attributes@,
                            )
                            &&& final(self).payload_builder@ == old(
                                self,
                            ).payload_builder@.after_id_lookup(fcu.head_block_hash, attributes@)
                        },
                        None => response.payload_id is None && final(self).payload_builder == old(
                            self,
                        ).payload_builder,
                    }
                }
            }),
    {
        let head_hash = fcu.head_block_hash;
        let payload_status = if elapsed_millis < self.config.fcu_wait_millis {
            // Wait a short time for a definite status: the engine is likely to
            // be at work on the fork choice of the controller.
            match self.get_cached_fcu(fcu, true) {
                Some(definite_status) => definite_status,
                None => {
                    return FollowerFcuStep::Wait;
                },
            }
        } else {
            // Take any status from the cache, or make up one of syncing.
            match self.get_cached_fcu(fcu, false) {
                Some(payload_status) => payload_status,
                None => PayloadStatus::syncing(),
            }
        };
        let payload_id = match payload_attributes {
            Some(attributes) => match self.get_existing_payload_id(&head_hash, attributes) {
                Ok(payload_id) => Some(payload_id),
                Err(_) => None,
            },
            None => None,
        };
        FollowerFcuStep::Done(ForkchoiceUpdatedResponse { payload_status, payload_id })
    }
}

} // verus!
