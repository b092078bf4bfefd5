//! The payload builder: for attributes that the controller registers on a
//! canonical block it builds a payload without transactions, and keeps it
//! under an id for the followers that ask for it.

use crate::base_fee::{base_fee_defined, checked_base_fee_per_gas, expected_base_fee};
use crate::fork::ForkName;
use crate::multiplexer::Multiplexer;
use crate::types::{ErrorCode, JsonError};
use crate::hash::{
    be_bytes, extend_with, from_be_bytes, key_of_hash, lemma_be_bytes_injective,
    lemma_be_round_trip, lemma_same_array, lemma_same_parts, payload_id_of, to_be_bytes, zero_hash, BlockHash,
    PayloadId,
};
use crate::payload::{
    copy_bytes, copy_withdrawals, BlobGas, ExecutionPayload, ExecutionPayloadView,
    PayloadAttributes, PayloadAttributesView, PayloadHeader, PayloadHeaderView, PayloadInfo,
    Status, Withdrawal,
};
use crate::store::{
    has_key, lemma_stored, lemma_stored_after_touched, lemma_touched, lookup, stored, touched,
    Cache, Entries, Record, RecordView,
};
use crate::text::{decimal_string, decimal_text, hex_string, hex_text, joined};
use crate::uint256::{lemma_uint256_of, uint256_of, Uint256};
use vstd::prelude::*;
use vstd::string::StringExecFns;

verus! {

/// The gas limit of every payload that is built.
pub const GAS_LIMIT: u64 = 30_000_000;

/// The extra data of a payload is at most this long.
pub const MAX_EXTRA_DATA_BYTES: usize = 32;

/// The Keccak hash of the RLP encoding of the empty list: the receipts root
/// of a block without transactions.
pub open spec fn empty_list_rlp_hash() -> BlockHash {
    [
        0x1d,
        0xcc,
        0x4d,
        0xe8,
        0xde,
        0xc7,
        0x5d,
        0x7a,
        0xab,
        0x85,
        0xb5,
        0x67,
        0xb6,
        0xcc,
        0xd4,
        0x1a,
        0xd3,
        0x12,
        0x45,
        0x1b,
        0x94,
        0x8a,
        0x74,
        0x13,
        0xf0,
        0xa1,
        0x42,
        0xfd,
        0x40,
        0xd4,
        0x93,
        0x47,
    ]
}

/// `keccak_hash::KECCAK_EMPTY_LIST_RLP`, the hash that the crate documents as
/// the Keccak hash of the RLP encoding of the empty list, as bytes.
#[verifier::external_body]
fn keccak_empty_list_rlp() -> (hash: BlockHash)
    ensures
        hash == empty_list_rlp_hash(),
{
    keccak_hash::KECCAK_EMPTY_LIST_RLP.to_fixed_bytes()
}

/// The logs bloom of a block without logs: 256 zero bytes.
pub open spec fn empty_logs_bloom() -> [u8; 256] {
    vstd::array::spec_array_fill_for_copy_type::<u8, 256>(0u8)
}

/// The bytes that stand for one withdrawal in a key.
pub open spec fn withdrawal_bytes(w: Withdrawal) -> Seq<u8> {
    be_bytes(w.index) + be_bytes(w.validator_index) + w.address@ + be_bytes(w.amount)
}

/// The bytes that stand for a list of withdrawals in a key.
pub open spec fn withdrawals_bytes(list: Seq<Withdrawal>) -> Seq<u8>
    decreases list.len(),
{
    if list.len() == 0 {
        Seq::empty()
    } else {
        withdrawals_bytes(list.drop_last()) + withdrawal_bytes(list.last())
    }
}

/// The bytes that stand for an optional hash in a key.
pub open spec fn optional_hash_bytes(hash: Option<BlockHash>) -> Seq<u8> {
    match hash {
        Some(h) => seq![1u8] + h@,
        None => seq![0u8],
    }
}

/// The bytes that stand for an optional list of withdrawals in a key.
pub open spec fn optional_withdrawals_bytes(list: Option<Seq<Withdrawal>>) -> Seq<u8> {
    match list {
        Some(l) => seq![1u8] + be_bytes(l.len() as u64) + withdrawals_bytes(l),
        None => seq![0u8],
    }
}

/// The key of a parent block and payload attributes: every field of both, in order.
pub open spec fn attributes_key(parent_hash: BlockHash, attributes: PayloadAttributesView) -> Seq<
    u8,
> {
    parent_hash@ + be_bytes(attributes.timestamp) + attributes.prev_randao@
        + attributes.suggested_fee_recipient@ + optional_hash_bytes(
        attributes.parent_beacon_block_root,
    ) + optional_withdrawals_bytes(attributes.withdrawals)
}

/// Withdrawals with the same bytes are the same.
pub proof fn lemma_withdrawal_bytes_injective(a: Withdrawal, b: Withdrawal)
    requires
        withdrawal_bytes(a) == withdrawal_bytes(b),
    ensures
        a == b,
{
    lemma_be_round_trip(a.index);
    lemma_be_round_trip(a.validator_index);
    lemma_be_round_trip(a.amount);
    lemma_be_round_trip(b.index);
    lemma_be_round_trip(b.validator_index);
    lemma_be_round_trip(b.amount);
    lemma_same_parts(
        be_bytes(a.index) + be_bytes(a.validator_index) + a.address@,
        be_bytes(a.amount),
        be_bytes(b.index) + be_bytes(b.validator_index) + b.address@,
        be_bytes(b.amount),
    );
    lemma_same_parts(
        be_bytes(a.index) + be_bytes(a.validator_index),
        a.address@,
        be_bytes(b.index) + be_bytes(b.validator_index),
        b.address@,
    );
    lemma_same_parts(
        be_bytes(a.index),
        be_bytes(a.validator_index),
        be_bytes(b.index),
        be_bytes(b.validator_index),
    );
    lemma_be_bytes_injective(a.index, b.index);
    lemma_be_bytes_injective(a.validator_index, b.validator_index);
    lemma_be_bytes_injective(a.amount, b.amount);
    lemma_same_array(a.address, b.address);
}

/// Each withdrawal takes 44 bytes of a key.
pub proof fn lemma_withdrawals_bytes_len(list: Seq<Withdrawal>)
    ensures
        withdrawals_bytes(list).len() == 44 * list.len(),
    decreases list.len(),
{
    if list.len() > 0 {
        lemma_withdrawals_bytes_len(list.drop_last());
        lemma_be_round_trip(list.last().index);
        lemma_be_round_trip(list.last().validator_index);
        lemma_be_round_trip(list.last().amount);
    }
}

/// Lists of withdrawals of one length with the same bytes are the same.
pub proof fn lemma_withdrawals_bytes_injective(a: Seq<Withdrawal>, b: Seq<Withdrawal>)
    requires
        a.len() == b.len(),
        withdrawals_bytes(a) == withdrawals_bytes(b),
    ensures
        a == b,
    decreases a.len(),
{
    if a.len() > 0 {
        lemma_withdrawals_bytes_len(a.drop_last());
        lemma_withdrawals_bytes_len(b.drop_last());
        lemma_same_parts(
            withdrawals_bytes(a.drop_last()),
            withdrawal_bytes(a.last()),
            withdrawals_bytes(b.drop_last()),
            withdrawal_bytes(b.last()),
        );
        lemma_withdrawals_bytes_injective(a.drop_last(), b.drop_last());
        lemma_withdrawal_bytes_injective(a.last(), b.last());
        assert(a =~= a.drop_last().push(a.last()));
        assert(b =~= b.drop_last().push(b.last()));
    } else {
        assert(a =~= b);
    }
}

/// A parent block and payload attributes have the key of no other parent
/// block or payload attributes: the key holds every field of both.
pub proof fn lemma_attributes_key_injective(
    parent1: BlockHash,
    attributes1: PayloadAttributesView,
    parent2: BlockHash,
    attributes2: PayloadAttributesView,
)
    requires
        attributes_key(parent1, attributes1) == attributes_key(parent2, attributes2),
        attributes1.withdrawals matches Some(list) ==> list.len() <= u64::MAX,
        attributes2.withdrawals matches Some(list) ==> list.len() <= u64::MAX,
    ensures
        parent1 == parent2,
        attributes1 == attributes2,
{
    let fixed1 = parent1@ + be_bytes(attributes1.timestamp) + attributes1.prev_randao@
        + attributes1.suggested_fee_recipient@;
    let fixed2 = parent2@ + be_bytes(attributes2.timestamp) + attributes2.prev_randao@
        + attributes2.suggested_fee_recipient@;
    let root1 = optional_hash_bytes(attributes1.parent_beacon_block_root);
    let root2 = optional_hash_bytes(attributes2.parent_beacon_block_root);
    let list1 = optional_withdrawals_bytes(attributes1.withdrawals);
    let list2 = optional_withdrawals_bytes(attributes2.withdrawals);
    lemma_be_round_trip(attributes1.timestamp);
    lemma_be_round_trip(attributes2.timestamp);
    assert(attributes_key(parent1, attributes1) =~= fixed1 + (root1 + list1));
    assert(attributes_key(parent2, attributes2) =~= fixed2 + (root2 + list2));
    lemma_same_parts(fixed1, root1 + list1, fixed2, root2 + list2);
    // The fields of a fixed length.
    lemma_same_parts(
        parent1@ + be_bytes(attributes1.timestamp) + attributes1.prev_randao@,
        attributes1.suggested_fee_recipient@,
        parent2@ + be_bytes(attributes2.timestamp) + attributes2.prev_randao@,
        attributes2.suggested_fee_recipient@,
    );
    lemma_same_parts(
        parent1@ + be_bytes(attributes1.timestamp),
        attributes1.prev_randao@,
        parent2@ + be_bytes(attributes2.timestamp),
        attributes2.prev_randao@,
    );
    lemma_same_parts(
        parent1@,
        be_bytes(attributes1.timestamp),
        parent2@,
        be_bytes(attributes2.timestamp),
    );
    lemma_same_array(parent1, parent2);
    lemma_be_bytes_injective(attributes1.timestamp, attributes2.timestamp);
    lemma_same_array(attributes1.prev_randao, attributes2.prev_randao);
    lemma_same_array(attributes1.suggested_fee_recipient, attributes2.suggested_fee_recipient);
    // The parent beacon block root: its first byte says whether there is one.
    assert((root1 + list1)[0] == root1[0]);
    assert((root2 + list2)[0] == root2[0]);
    assert(root1.len() == root2.len());
    lemma_same_parts(root1, list1, root2, list2);
    match (attributes1.parent_beacon_block_root, attributes2.parent_beacon_block_root) {
        (Some(h1), Some(h2)) => {
            lemma_same_parts(seq![1u8], h1@, seq![1u8], h2@);
            lemma_same_array(h1, h2);
        },
        (None, None) => {},
        _ => {
            assert(root1[0] != root2[0]);
        },
    }
    // The withdrawals: a first byte says whether there are any, then comes their number.
    match (attributes1.withdrawals, attributes2.withdrawals) {
        (Some(l1), Some(l2)) => {
            lemma_be_round_trip(l1.len() as u64);
            lemma_be_round_trip(l2.len() as u64);
            lemma_same_parts(
                seq![1u8] + be_bytes(l1.len() as u64),
                withdrawals_bytes(l1),
                seq![1u8] + be_bytes(l2.len() as u64),
                withdrawals_bytes(l2),
            );
            lemma_same_parts(
                seq![1u8],
                be_bytes(l1.len() as u64),
                seq![1u8],
                be_bytes(l2.len() as u64),
            );
            lemma_be_bytes_injective(l1.len() as u64, l2.len() as u64);
            lemma_withdrawals_bytes_injective(l1, l2);
        },
        (None, None) => {},
        _ => {
            assert(list1[0] != list2[0]);
        },
    }
}

/// The key of a parent block and payload attributes.
pub fn key_of_attributes(parent_hash: &BlockHash, attributes: &PayloadAttributes) -> (key: Vec<u8>)
    ensures
        key@ == attributes_key(*parent_hash, attributes@),
{
    let mut key: Vec<u8> = Vec::new();
    extend_with(&mut key, parent_hash);
    extend_with(&mut key, &to_be_bytes(attributes.timestamp));
    extend_with(&mut key, &attributes.prev_randao);
    extend_with(&mut key, &attributes.suggested_fee_recipient);
    match &attributes.parent_beacon_block_root {
        Some(root) => {
            key.push(1u8);
            extend_with(&mut key, root);
        },
        None => {
            key.push(0u8);
        },
    }
    let ghost prefix = key@;
    assert(prefix =~= parent_hash@ + be_bytes(attributes.timestamp) + attributes.prev_randao@
        + attributes.suggested_fee_recipient@ + optional_hash_bytes(
        attributes.parent_beacon_block_root,
    ));
    match &attributes.withdrawals {
        Some(list) => {
            key.push(1u8);
            extend_with(&mut key, &to_be_bytes(list.len() as u64));
            let ghost start = key@;
            let mut i: usize = 0;
            while i < list.len()
                invariant
                    i <= list.len(),
                    key@ == start + withdrawals_bytes(list@.take(i as int)),
                decreases list.len() - i,
            {
                let w = list[i];
                let ghost before = key@;
                extend_with(&mut key, &to_be_bytes(w.index));
                extend_with(&mut key, &to_be_bytes(w.validator_index));
                extend_with(&mut key, &w.address);
                extend_with(&mut key, &to_be_bytes(w.amount));
                proof {
                    assert(list@.take(i + 1).drop_last() =~= list@.take(i as int));
                    assert(list@.take(i + 1).last() == w);
                    assert(key@ =~= before + withdrawal_bytes(w));
                    assert(key@ =~= start + withdrawals_bytes(list@.take(i + 1)));
                }
                i += 1;
            }
            assert(list@.take(list.len() as int) =~= list@);
            assert(key@ =~= prefix + optional_withdrawals_bytes(attributes@.withdrawals));
        },
        None => {
            key.push(0u8);
            assert(key@ =~= prefix + optional_withdrawals_bytes(attributes@.withdrawals));
        },
    }
    key
}

/// The header of the payload that is built on a block for given attributes,
/// before its block hash is known.
pub open spec fn dummy_header(
    parent_hash: BlockHash,
    attributes: PayloadAttributesView,
    parent: PayloadInfo,
    extra_data: Seq<u8>,
) -> PayloadHeaderView {
    PayloadHeaderView {
        parent_hash,
        fee_recipient: attributes.suggested_fee_recipient,
        state_root: parent.state_root,
        receipts_root: empty_list_rlp_hash(),
        logs_bloom: empty_logs_bloom(),
        prev_randao: attributes.prev_randao,
        block_number: (parent.block_number + 1) as u64,
        gas_limit: GAS_LIMIT,
        gas_used: 0,
        timestamp: attributes.timestamp,
        extra_data,
        base_fee_per_gas: uint256_of(
            expected_base_fee(parent.base_fee_per_gas@, parent.gas_used, parent.gas_limit),
        ),
        block_hash: zero_hash(),
        transactions: Seq::empty(),
    }
}

/// The payload of a fork with the given header: from Capella on with the
/// withdrawals of the attributes, from Deneb on with no blob gas used.
pub open spec fn dummy_payload(
    fork: ForkName,
    header: PayloadHeaderView,
    attributes: PayloadAttributesView,
) -> ExecutionPayloadView {
    let withdrawals = match attributes.withdrawals {
        Some(list) => list,
        None => Seq::empty(),
    };
    let blob_gas = BlobGas { blob_gas_used: 0, excess_blob_gas: 0 };
    match fork {
        ForkName::Capella => ExecutionPayloadView::Capella { header, withdrawals },
        ForkName::Deneb => ExecutionPayloadView::Deneb { header, withdrawals, blob_gas },
        ForkName::Electra => ExecutionPayloadView::Electra { header, withdrawals, blob_gas },
        _ => ExecutionPayloadView::Bellatrix { header },
    }
}

/// What becomes of attributes that are registered.
pub enum Registration {
    /// They were registered before, under this id.
    Known(PayloadId),
    /// No payload is built for them, for this reason.
    Refused(Seq<char>),
    /// A payload is built and kept under this id, which is new.
    Built(PayloadId),
}

/// What the payload builder holds.
pub struct BuilderView {
    /// The counter that the next payload id is made of.
    pub next_payload_id: u64,
    /// The ids given to parent blocks and attributes.
    pub attributes: Entries,
    pub attributes_capacity: nat,
    /// What is remembered of canonical blocks.
    pub info: Entries,
    pub info_capacity: nat,
    /// The payloads that were built.
    pub payloads: Entries,
    pub payloads_capacity: nat,
    /// The extra data of the payloads that are built.
    pub extra_data: Seq<u8>,
}

impl BuilderView {
    pub open spec fn wf(self) -> bool {
        &&& crate::store::distinct_keys(self.attributes)
        &&& self.attributes.len() <= self.attributes_capacity
        &&& self.attributes_capacity > 0
        &&& crate::store::distinct_keys(self.info)
        &&& self.info.len() <= self.info_capacity
        &&& self.info_capacity > 0
        &&& crate::store::distinct_keys(self.payloads)
        &&& self.payloads.len() <= self.payloads_capacity
        &&& self.payloads_capacity > 0
        &&& self.extra_data.len() <= MAX_EXTRA_DATA_BYTES
        &&& forall|key: Seq<u8>| #[trigger]
            has_key(self.info, key) ==> lookup(self.info, key) matches Some(RecordView::Info(_))
    }

    /// The id under which a parent block and attributes are registered.
    pub open spec fn known_id(self, parent_hash: BlockHash, attributes: PayloadAttributesView)
        -> Option<PayloadId> {
        match lookup(self.attributes, attributes_key(parent_hash, attributes)) {
            Some(RecordView::PayloadId(id)) => Some(id),
            _ => None,
        }
    }

    /// What is remembered of a canonical block.
    pub open spec fn info_of(self, block_hash: BlockHash) -> Option<PayloadInfo> {
        match lookup(self.info, block_hash@) {
            Some(RecordView::Info(info)) => Some(info),
            _ => None,
        }
    }

    /// The payload that is kept under an id.
    pub open spec fn payload_of(self, id: PayloadId) -> Option<ExecutionPayloadView> {
        match lookup(self.payloads, id@) {
            Some(RecordView::Payload(payload)) => Some(payload),
            _ => None,
        }
    }

    /// The builder after a block of the canonical chain was registered with
    /// its status: an invalid block is not remembered; of a block that is
    /// remembered already, what was remembered first stays.
    pub open spec fn canonical(self, block_hash: BlockHash, info: PayloadInfo, status: Status)
        -> BuilderView {
        if status is Invalid || status is InvalidBlockHash {
            self
        } else if has_key(self.info, block_hash@) {
            BuilderView { info: touched(self.info, block_hash@), ..self }
        } else {
            BuilderView {
                info: stored(self.info, self.info_capacity, block_hash@, RecordView::Info(info)),
                ..self
            }
        }
    }

    /// The builder after each of the observations of one block was registered in turn.
    pub open spec fn canonical_all(
        self,
        block_hash: BlockHash,
        observations: Seq<(PayloadInfo, Status)>,
    ) -> BuilderView
        decreases observations.len(),
    {
        if observations.len() == 0 {
            self
        } else {
            self.canonical_all(block_hash, observations.drop_last()).canonical(
                block_hash,
                observations.last().0,
                observations.last().1,
            )
        }
    }

    /// Why no payload is built on a parent for given attributes, if none is.
    pub open spec fn refusal(
        self,
        parent_hash: BlockHash,
        attributes: PayloadAttributesView,
        fork: ForkName,
    ) -> Option<Seq<char>> {
        match self.info_of(parent_hash) {
            None => Some("unknown parent: "@ + hex_text(parent_hash@)),
            Some(parent) => if parent.block_number == u64::MAX {
                Some("block number overflow"@)
            } else if !base_fee_defined(
                parent.base_fee_per_gas@,
                parent.gas_used,
                parent.gas_limit,
            ) {
                Some("base fee overflow"@)
            } else if self.next_payload_id == u64::MAX {
                Some("payload ids exhausted"@)
            } else {
                match fork {
                    ForkName::Base | ForkName::Altair => Some("invalid fork: "@ + fork.name_spec()),
                    ForkName::Bellatrix => None,
                    _ => if attributes.withdrawals is None {
                        Some("no withdrawals"@)
                    } else {
                        None
                    },
                }
            },
        }
    }

    /// What becomes of a parent block and attributes that are registered
    /// while `fork` is active.
    pub open spec fn registration(
        self,
        parent_hash: BlockHash,
        attributes: PayloadAttributesView,
        fork: ForkName,
    ) -> Registration {
        match self.known_id(parent_hash, attributes) {
            Some(id) => Registration::Known(id),
            None => match self.refusal(parent_hash, attributes, fork) {
                Some(reason) => Registration::Refused(reason),
                None => Registration::Built(payload_id_of(self.next_payload_id)),
            },
        }
    }

    /// The payload that is built on a parent for given attributes, before its
    /// block hash is known.
    pub open spec fn unsealed(
        self,
        parent_hash: BlockHash,
        attributes: PayloadAttributesView,
        fork: ForkName,
    ) -> ExecutionPayloadView {
        dummy_payload(
            fork,
            dummy_header(
                parent_hash,
                attributes,
                self.info_of(parent_hash).unwrap(),
                self.extra_data,
            ),
            attributes,
        )
    }

    /// The builder after attributes were registered. Where a payload was
    /// built, `block_hash` is the hash that it was given.
    pub open spec fn registered(
        self,
        parent_hash: BlockHash,
        attributes: PayloadAttributesView,
        fork: ForkName,
        block_hash: BlockHash,
    ) -> BuilderView {
        let key = attributes_key(parent_hash, attributes);
        match self.registration(parent_hash, attributes, fork) {
            Registration::Known(_) => BuilderView {
                attributes: touched(self.attributes, key),
                ..self
            },
            Registration::Refused(_) => BuilderView {
                attributes: touched(self.attributes, key),
                info: touched(self.info, parent_hash@),
                ..self
            },
            Registration::Built(id) => BuilderView {
                next_payload_id: (self.next_payload_id + 1) as u64,
                attributes: stored(
                    self.attributes,
                    self.attributes_capacity,
                    key,
                    RecordView::PayloadId(id),
                ),
                info: touched(self.info, parent_hash@),
                payloads: stored(
                    self.payloads,
                    self.payloads_capacity,
                    id@,
                    RecordView::Payload(
                        self.unsealed(parent_hash, attributes, fork).with_block_hash(block_hash),
                    ),
                ),
                ..self
            },
        }
    }

    /// The builder after the id of a parent block and attributes was looked up.
    pub open spec fn after_id_lookup(self, parent_hash: BlockHash, attributes: PayloadAttributesView)
        -> BuilderView {
        BuilderView {
            attributes: touched(self.attributes, attributes_key(parent_hash, attributes)),
            ..self
        }
    }

    /// The builder after a payload was looked up.
    pub open spec fn after_payload_lookup(self, id: PayloadId) -> BuilderView {
        BuilderView { payloads: touched(self.payloads, id@), ..self }
    }
}

/// A use of a key keeps every record of a cache of canonical blocks one of a block.
proof fn lemma_info_kind_touched(info: Entries, key: Seq<u8>)
    requires
        crate::store::distinct_keys(info),
        forall|k: Seq<u8>| #[trigger]
            has_key(info, k) ==> lookup(info, k) matches Some(RecordView::Info(_)),
    ensures
        forall|k: Seq<u8>| #[trigger]
            has_key(touched(info, key), k) ==> lookup(touched(info, key), k) matches Some(
                RecordView::Info(_),
            ),
{
    lemma_touched(info, key);
    assert forall|k: Seq<u8>| #[trigger] has_key(touched(info, key), k) implies lookup(
        touched(info, key),
        k,
    ) matches Some(RecordView::Info(_)) by {
        assert(lookup(touched(info, key), k) == lookup(info, k));
        assert(lookup(touched(info, key), k) is Some);
        assert(has_key(info, k));
    }
}

/// Registering a block of the canonical chain keeps the builder well formed.
/// Unless its status is invalid, the block is remembered afterwards: as it
/// was remembered before, if it was; else as it is registered now.
pub proof fn lemma_canonical(
    view: BuilderView,
    block_hash: BlockHash,
    info: PayloadInfo,
    status: Status,
)
    requires
        view.wf(),
    ensures
        view.canonical(block_hash, info, status).wf(),
        !(status is Invalid || status is InvalidBlockHash) ==> view.canonical(
            block_hash,
            info,
            status,
        ).info_of(block_hash) == (match view.info_of(block_hash) {
            Some(first) => Some(first),
            None => Some(info),
        }),
        status is Invalid || status is InvalidBlockHash ==> view.canonical(block_hash, info, status)
            == view,
{
    lemma_touched(view.info, block_hash@);
    lemma_info_kind_touched(view.info, block_hash@);
    lemma_stored(view.info, view.info_capacity, block_hash@, RecordView::Info(info));
    if !(status is Invalid || status is InvalidBlockHash) && !has_key(view.info, block_hash@) {
        let after = stored(view.info, view.info_capacity, block_hash@, RecordView::Info(info));
        assert forall|k: Seq<u8>| #[trigger] has_key(after, k) implies lookup(after, k) matches Some(
            RecordView::Info(_),
        ) by {
            if k != block_hash@ {
                assert(has_key(view.info, k));
            }
        }
    }
}

/// What the first of the observations with a status that is not invalid held.
pub open spec fn first_remembered(observations: Seq<(PayloadInfo, Status)>) -> Option<PayloadInfo>
    decreases observations.len(),
{
    if observations.len() == 0 {
        None
    } else {
        match first_remembered(observations.drop_last()) {
            Some(info) => Some(info),
            None => if observations.last().1 is Invalid || observations.last().1 is InvalidBlockHash {
                None
            } else {
                Some(observations.last().0)
            },
        }
    }
}

/// However often one block is registered, and with whatever it is observed to
/// hold: what was remembered of it before stays; of a block that was not
/// remembered, what the first observation with a status that is not invalid
/// held is remembered, and nothing if there is no such observation.
pub proof fn lemma_first_observation_stays(
    view: BuilderView,
    block_hash: BlockHash,
    observations: Seq<(PayloadInfo, Status)>,
)
    requires
        view.wf(),
    ensures
        view.canonical_all(block_hash, observations).wf(),
        view.canonical_all(block_hash, observations).info_of(block_hash) == (match view.info_of(
            block_hash,
        ) {
            Some(info) => Some(info),
            None => first_remembered(observations),
        }),
    decreases observations.len(),
{
    if observations.len() > 0 {
        lemma_first_observation_stays(view, block_hash, observations.drop_last());
        lemma_canonical(
            view.canonical_all(block_hash, observations.drop_last()),
            block_hash,
            observations.last().0,
            observations.last().1,
        );
    }
}

/// Registering attributes keeps the builder well formed, and the counter of
/// payload ids does not go back.
pub proof fn lemma_registered_wf(
    view: BuilderView,
    parent_hash: BlockHash,
    attributes: PayloadAttributesView,
    fork: ForkName,
    block_hash: BlockHash,
)
    requires
        view.wf(),
    ensures
        view.registered(parent_hash, attributes, fork, block_hash).wf(),
        view.registered(parent_hash, attributes, fork, block_hash).next_payload_id
            >= view.next_payload_id,
{
    let key = attributes_key(parent_hash, attributes);
    lemma_touched(view.attributes, key);
    lemma_touched(view.info, parent_hash@);
    lemma_info_kind_touched(view.info, parent_hash@);
    match view.registration(parent_hash, attributes, fork) {
        Registration::Built(id) => {
            lemma_stored(view.attributes, view.attributes_capacity, key, RecordView::PayloadId(id));
            lemma_stored(
                view.payloads,
                view.payloads_capacity,
                id@,
                RecordView::Payload(
                    view.unsealed(parent_hash, attributes, fork).with_block_hash(block_hash),
                ),
            );
        },
        _ => {},
    }
}

/// A payload that is built is kept under its id with the block hash that it
/// was given: the one that sealing the payload without a block hash gave.
pub proof fn lemma_built_payload(
    view: BuilderView,
    parent_hash: BlockHash,
    attributes: PayloadAttributesView,
    fork: ForkName,
    block_hash: BlockHash,
)
    requires
        view.wf(),
        view.registration(parent_hash, attributes, fork) is Built,
    ensures
        ({
            let id = payload_id_of(view.next_payload_id);
            let after = view.registered(parent_hash, attributes, fork, block_hash);
            let unsealed = view.unsealed(parent_hash, attributes, fork);
            &&& view.registration(parent_hash, attributes, fork) == Registration::Built(id)
            &&& after.known_id(parent_hash, attributes) == Some(id)
            &&& after.payload_of(id) == Some(unsealed.with_block_hash(block_hash))
            &&& after.payload_of(id).unwrap().header().block_hash == block_hash
            &&& after.payload_of(id).unwrap().with_block_hash(zero_hash()) == unsealed
            &&& after.next_payload_id == view.next_payload_id + 1
        }),
{
    let id = payload_id_of(view.next_payload_id);
    let key = attributes_key(parent_hash, attributes);
    let unsealed = view.unsealed(parent_hash, attributes, fork);
    lemma_stored(view.attributes, view.attributes_capacity, key, RecordView::PayloadId(id));
    lemma_stored(
        view.payloads,
        view.payloads_capacity,
        id@,
        RecordView::Payload(unsealed.with_block_hash(block_hash)),
    );
}

/// Attributes that are registered a second time on the same parent get the
/// id that they got the first time, and the payload kept under that id is
/// the same after both.
pub proof fn lemma_registered_twice(
    view: BuilderView,
    parent_hash: BlockHash,
    attributes: PayloadAttributesView,
    fork: ForkName,
    first_hash: BlockHash,
    second_hash: BlockHash,
)
    requires
        view.wf(),
        !(view.registration(parent_hash, attributes, fork) is Refused),
    ensures
        ({
            let first = view.registration(parent_hash, attributes, fork);
            let between = view.registered(parent_hash, attributes, fork, first_hash);
            let second = between.registration(parent_hash, attributes, fork);
            let after = between.registered(parent_hash, attributes, fork, second_hash);
            let id = match first {
                Registration::Known(id) => id,
                Registration::Built(id) => id,
                Registration::Refused(_) => arbitrary(),
            };
            &&& second == Registration::Known(id)
            &&& after.payload_of(id) == between.payload_of(id)
            &&& first is Built ==> between.payload_of(id) == Some(
                view.unsealed(parent_hash, attributes, fork).with_block_hash(first_hash),
            )
        }),
{
    let key = attributes_key(parent_hash, attributes);
    lemma_touched(view.attributes, key);
    match view.registration(parent_hash, attributes, fork) {
        Registration::Built(id) => {
            lemma_stored(view.attributes, view.attributes_capacity, key, RecordView::PayloadId(id));
            lemma_stored(
                view.payloads,
                view.payloads_capacity,
                id@,
                RecordView::Payload(
                    view.unsealed(parent_hash, attributes, fork).with_block_hash(first_hash),
                ),
            );
        },
        _ => {},
    }
}

/// A registration of attributes that took the builder from `before` to
/// `after` and ended in `r`. Attributes that were registered before get the id
/// that they have; those that are refused get the reason; for the others a
/// payload is built and kept under a new id, with the block hash that `seal`
/// gave for the payload without one and the parent beacon block root.
pub open spec fn registers<F: Fn(&ExecutionPayload, Option<BlockHash>) -> BlockHash>(
    before: BuilderView,
    after: BuilderView,
    parent_hash: BlockHash,
    attributes: &PayloadAttributes,
    fork: ForkName,
    seal: F,
    r: Result<PayloadId, String>,
) -> bool {
    match before.registration(parent_hash, attributes@, fork) {
        Registration::Known(id) => r == Ok::<PayloadId, String>(id) && after == before.registered(
            parent_hash,
            attributes@,
            fork,
            zero_hash(),
        ),
        Registration::Refused(reason) => r matches Err(message) && message@ == reason && after
            == before.registered(parent_hash, attributes@, fork, zero_hash()),
        Registration::Built(id) => r == Ok::<PayloadId, String>(id) && exists|
            unsealed: ExecutionPayload,
            block_hash: BlockHash,
        |
            {
                &&& unsealed@ == before.unsealed(parent_hash, attributes@, fork)
                &&& call_ensures(seal, (&unsealed, attributes.parent_beacon_block_root), block_hash)
                &&& after == before.registered(parent_hash, attributes@, fork, block_hash)
            },
    }
}

/// What a follower gets for a payload id.
#[derive(Debug, PartialEq, Eq)]
pub enum GetPayloadResponse {
    V1 { execution_payload: ExecutionPayload, block_value: Uint256 },
    V2 { execution_payload: ExecutionPayload, block_value: Uint256 },
    V3 {
        execution_payload: ExecutionPayload,
        block_value: Uint256,
        blobs_bundle: BlobsBundle,
        should_override_builder: bool,
    },
    V4 {
        execution_payload: ExecutionPayload,
        block_value: Uint256,
        blobs_bundle: BlobsBundle,
        should_override_builder: bool,
        execution_requests: Vec<Vec<u8>>,
    },
}

/// The blobs of a payload with their commitments and proofs.
#[derive(Debug, PartialEq, Eq)]
pub struct BlobsBundle {
    pub commitments: Vec<Vec<u8>>,
    pub proofs: Vec<Vec<u8>>,
    pub blobs: Vec<Vec<u8>>,
}

impl BlobsBundle {
    pub open spec fn is_empty(self) -> bool {
        self.commitments@.len() == 0 && self.proofs@.len() == 0 && self.blobs@.len() == 0
    }

    /// The bundle of a payload without blobs.
    pub fn empty() -> (r: BlobsBundle)
        ensures
            r.is_empty(),
    {
        BlobsBundle { commitments: Vec::new(), proofs: Vec::new(), blobs: Vec::new() }
    }
}

impl GetPayloadResponse {
    /// The envelope of a payload follows its fork. The block is worth
    /// nothing; from Deneb on it comes with an empty bundle of blobs and does
    /// not override the builder; in Electra it comes with no requests.
    pub open spec fn wraps(self, payload: ExecutionPayloadView) -> bool {
        match self {
            GetPayloadResponse::V1 { execution_payload, block_value } => {
                &&& payload is Bellatrix
                &&& execution_payload@ == payload
                &&& block_value@ == 0
            },
            GetPayloadResponse::V2 { execution_payload, block_value } => {
                &&& payload is Capella
                &&& execution_payload@ == payload
                &&& block_value@ == 0
            },
            GetPayloadResponse::V3 {
                execution_payload,
                block_value,
                blobs_bundle,
                should_override_builder,
            } => {
                &&& payload is Deneb
                &&& execution_payload@ == payload
                &&& block_value@ == 0
                &&& blobs_bundle.is_empty()
                &&& !should_override_builder
            },
            GetPayloadResponse::V4 {
                execution_payload,
                block_value,
                blobs_bundle,
                should_override_builder,
                execution_requests,
            } => {
                &&& payload is Electra
                &&& execution_payload@ == payload
                &&& block_value@ == 0
                &&& blobs_bundle.is_empty()
                &&& !should_override_builder
                &&& execution_requests@.len() == 0
            },
        }
    }

    /// The envelope of a payload.
    pub fn wrap(execution_payload: ExecutionPayload) -> (r: GetPayloadResponse)
        ensures
            r.wraps(execution_payload@),
    {
        let block_value = Uint256::zero();
        match &execution_payload {
            ExecutionPayload::Bellatrix { .. } => GetPayloadResponse::V1 {
                execution_payload,
                block_value,
            },
            ExecutionPayload::Capella { .. } => GetPayloadResponse::V2 {
                execution_payload,
                block_value,
            },
            ExecutionPayload::Deneb { .. } => GetPayloadResponse::V3 {
                execution_payload,
                block_value,
                blobs_bundle: BlobsBundle::empty(),
                should_override_builder: false,
            },
            ExecutionPayload::Electra { .. } => GetPayloadResponse::V4 {
                execution_payload,
                block_value,
                blobs_bundle: BlobsBundle::empty(),
                should_override_builder: false,
                execution_requests: Vec::new(),
            },
        }
    }
}

/// The payload builder.
pub struct PayloadBuilder {
    next_payload_id: u64,
    payload_attributes: Cache,
    /// From block hash to what is remembered of canonical payloads.
    payload_info: Cache,
    /// From payload id to the payload that was built.
    payloads: Cache,
    extra_data: Vec<u8>,
}

impl View for PayloadBuilder {
    type V = BuilderView;

    closed spec fn view(&self) -> BuilderView {
        BuilderView {
            next_payload_id: self.next_payload_id,
            attributes: self.payload_attributes.entries(),
            attributes_capacity: self.payload_attributes.capacity(),
            info: self.payload_info.entries(),
            info_capacity: self.payload_info.capacity(),
            payloads: self.payloads.entries(),
            payloads_capacity: self.payloads.capacity(),
            extra_data: self.extra_data@,
        }
    }
}

/// The extra data that a text gives: its bytes in UTF-8, and no more of them
/// than a payload may hold.
pub open spec fn extra_data_of(text: Seq<u8>) -> Seq<u8> {
    if text.len() <= MAX_EXTRA_DATA_BYTES {
        text
    } else {
        text.take(MAX_EXTRA_DATA_BYTES as int)
    }
}

impl PayloadBuilder {
    pub open spec fn wf(&self) -> bool {
        self@.wf()
    }

    /// A builder with empty caches of the given size, unless the size is zero.
    pub fn new(cache_size: usize, extra_data_str: &str) -> (builder: Option<PayloadBuilder>)
        ensures
            builder is Some <==> cache_size > 0,
            builder matches Some(b) ==> b.wf() && b@ == (BuilderView {
                next_payload_id: 0,
                attributes: Seq::empty(),
                attributes_capacity: cache_size as nat,
                info: Seq::empty(),
                info_capacity: cache_size as nat,
                payloads: Seq::empty(),
                payloads_capacity: cache_size as nat,
                extra_data: extra_data_of(vstd::utf8::encode_utf8(extra_data_str@)),
            }),
    {
        let extra_data_bytes = extra_data_str.as_bytes();
        let len = if extra_data_bytes.len() <= MAX_EXTRA_DATA_BYTES {
            extra_data_bytes.len()
        } else {
            MAX_EXTRA_DATA_BYTES
        };
        let mut extra_data: Vec<u8> = Vec::new();
        let mut i: usize = 0;
        while i < len
            invariant
                i <= len <= extra_data_bytes@.len(),
                extra_data@ == extra_data_bytes@.take(i as int),
            decreases len - i,
        {
            extra_data.push(extra_data_bytes[i]);
            i += 1;
            assert(extra_data@ =~= extra_data_bytes@.take(i as int));
        }
        assert(extra_data@ =~= extra_data_of(vstd::utf8::encode_utf8(extra_data_str@)));
        let payload_attributes = match Cache::new(cache_size) {
            Some(c) => c,
            None => {
                return None;
            },
        };
        let payload_info = match Cache::new(cache_size) {
            Some(c) => c,
            None => {
                return None;
            },
        };
        let payloads = match Cache::new(cache_size) {
            Some(c) => c,
            None => {
                return None;
            },
        };
        let builder = PayloadBuilder {
            next_payload_id: 0,
            payload_attributes,
            payload_info,
            payloads,
            extra_data,
        };
        assert(builder@.attributes =~= Seq::empty());
        assert(builder@.info =~= Seq::empty());
        assert(builder@.payloads =~= Seq::empty());
        assert forall|key: Seq<u8>| #[trigger] has_key(builder@.info, key) implies lookup(
            builder@.info,
            key,
        ) matches Some(RecordView::Info(_)) by {
            let i = choose|i: int| crate::store::holds_at(builder@.info, key, i);
        }
        Some(builder)
    }

    /// Registers a block of the canonical chain.
    pub fn register_canonical_payload(
        &mut self,
        block_hash: &BlockHash,
        info: PayloadInfo,
        status: Status,
    )
        requires
            old(self).wf(),
        ensures
            final(self).wf(),
            final(self)@ == old(self)@.canonical(*block_hash, info, status),
    {
        proof {
            lemma_canonical(self@, *block_hash, info, status);
        }
        if status == Status::Invalid || status == Status::InvalidBlockHash {
            return ;
        }
        let key = key_of_hash(block_hash);
        let known = self.payload_info.get(&key).is_some();
        if !known {
            proof {
                lemma_touched(old(self)@.info, key@);
            }
            self.payload_info.put(key, Record::Info(info));
        }
    }

    /// The id under which a parent block and attributes are registered.
    pub fn get_existing_payload_id(
        &mut self,
        parent_hash: &BlockHash,
        payload_attributes: &PayloadAttributes,
    ) -> (r: Result<PayloadId, String>)
        requires
            old(self).wf(),
        ensures
            final(self).wf(),
            final(self)@ == old(self)@.after_id_lookup(*parent_hash, payload_attributes@),
            match r {
                Ok(id) => old(self)@.known_id(*parent_hash, payload_attributes@) == Some(id),
                Err(message) => old(self)@.known_id(*parent_hash, payload_attributes@) is None
                    && message@ == "no payload ID known for parent "@ + hex_text(parent_hash@),
            },
    {
        proof {
            lemma_touched(self@.attributes, attributes_key(*parent_hash, payload_attributes@));
        }
        let key = key_of_attributes(parent_hash, payload_attributes);
        match self.payload_attributes.get(&key) {
            Some(Record::PayloadId(id)) => Ok(*id),
            _ => Err(joined("no payload ID known for parent ", hex_string(parent_hash).as_str())),
        }
    }

    /// The payload that is kept under an id.
    pub fn get_payload(&mut self, payload_id: &PayloadId) -> (r: Result<ExecutionPayload, String>)
        requires
            old(self).wf(),
        ensures
            final(self).wf(),
            final(self)@ == old(self)@.after_payload_lookup(*payload_id),
            match r {
                Ok(payload) => old(self)@.payload_of(*payload_id) == Some(payload@),
                Err(message) => old(self)@.payload_of(*payload_id) is None && message@
                    == "unknown payload ID: "@ + decimal_text(crate::hash::be_value(payload_id@)),
            },
    {
        proof {
            lemma_touched(self@.payloads, payload_id@);
        }
        let key = key_of_hash(payload_id);
        match self.payloads.get(&key) {
            Some(Record::Payload(payload)) => Ok(payload.clone()),
            _ => {
                let payload_num = from_be_bytes(payload_id);
                Err(joined("unknown payload ID: ", decimal_string(payload_num).as_str()))
            },
        }
    }

    /// Registers payload attributes on a parent block while `fork` is
    /// active, and builds a payload for them unless they are registered
    /// already. `seal` gives the block hash of the payload that was built,
    /// from the payload without one and the parent beacon block root.
    pub fn register_attributes<F: Fn(&ExecutionPayload, Option<BlockHash>) -> BlockHash>(
        &mut self,
        parent_hash: BlockHash,
        payload_attributes: &PayloadAttributes,
        fork: ForkName,
        seal: F,
    ) -> (r: Result<PayloadId, String>)
        requires
            old(self).wf(),
            forall|payload: &ExecutionPayload, root: Option<BlockHash>| #[trigger]
                call_requires(seal, (payload, root)),
        ensures
            final(self).wf(),
            registers(
                old(self)@,
                final(self)@,
                parent_hash,
                payload_attributes,
                fork,
                seal,
                r,
            ),
    {
        proof {
            lemma_registered_wf(self@, parent_hash, payload_attributes@, fork, zero_hash());
        }
        let attributes_key = key_of_attributes(&parent_hash, payload_attributes);
        // Return early if the payload is already known.
        match self.payload_attributes.get(&attributes_key) {
            Some(Record::PayloadId(id)) => {
                return Ok(*id);
            },
            _ => {},
        }
        // Check that the parent block is known.
        let parent_key = key_of_hash(&parent_hash);
        let parent_info = match self.payload_info.get(&parent_key) {
            Some(Record::Info(info)) => *info,
            _ => {
                proof {
                    lemma_touched(old(self)@.info, parent_hash@);
                }
                return Err(joined("unknown parent: ", hex_string(&parent_hash).as_str()));
            },
        };
        if parent_info.block_number == u64::MAX {
            return Err(String::from_str("block number overflow"));
        }
        let block_number = parent_info.block_number + 1;
        let base_fee_per_gas = match checked_base_fee_per_gas(
            parent_info.base_fee_per_gas,
            parent_info.gas_used,
            parent_info.gas_limit,
        ) {
            Some(fee) => fee,
            None => {
                return Err(String::from_str("base fee overflow"));
            },
        };
        if self.next_payload_id == u64::MAX {
            return Err(String::from_str("payload ids exhausted"));
        }
        // Allocate a payload id.
        let id = to_be_bytes(self.next_payload_id);
        proof {
            lemma_uint256_of(base_fee_per_gas);
        }
        let header = PayloadHeader {
            parent_hash,
            fee_recipient: payload_attributes.suggested_fee_recipient,
            state_root: parent_info.state_root,
            receipts_root: keccak_empty_list_rlp(),
            logs_bloom: [0u8;256],
            prev_randao: payload_attributes.prev_randao,
            block_number,
            gas_limit: GAS_LIMIT,
            gas_used: 0,
            timestamp: payload_attributes.timestamp,
            extra_data: copy_bytes(&self.extra_data),
            base_fee_per_gas,
            block_hash: [0u8;32],
            transactions: Vec::new(),
        };
        assert(header.logs_bloom =~= empty_logs_bloom());
        assert(header.block_hash =~= zero_hash());
        assert(crate::payload::byte_lists(header.transactions) =~= Seq::empty());
        assert(header@ == dummy_header(
            parent_hash,
            payload_attributes@,
            parent_info,
            self.extra_data@,
        ));
        let blob_gas = BlobGas { blob_gas_used: 0, excess_blob_gas: 0 };
        let payload = match fork {
            ForkName::Bellatrix => ExecutionPayload::Bellatrix { header },
            ForkName::Capella => match &payload_attributes.withdrawals {
                Some(list) => ExecutionPayload::Capella {
                    header,
                    withdrawals: copy_withdrawals(list),
                },
                None => {
                    return Err(String::from_str("no withdrawals"));
                },
            },
            ForkName::Deneb => match &payload_attributes.withdrawals {
                Some(list) => ExecutionPayload::Deneb {
                    header,
                    withdrawals: copy_withdrawals(list),
                    blob_gas,
                },
                None => {
                    return Err(String::from_str("no withdrawals"));
                },
            },
            ForkName::Electra => match &payload_attributes.withdrawals {
                Some(list) => ExecutionPayload::Electra {
                    header,
                    withdrawals: copy_withdrawals(list),
                    blob_gas,
                },
                None => {
                    return Err(String::from_str("no withdrawals"));
                },
            },
            ForkName::Base | ForkName::Altair => {
                return Err(joined("invalid fork: ", fork.name()));
            },
        };
        assert(payload@ == old(self)@.unsealed(parent_hash, payload_attributes@, fork));
        let block_hash = seal(&payload, payload_attributes.parent_beacon_block_root);
        let ghost unsealed = payload;
        let payload = payload.set_block_hash(block_hash);
        proof {
            lemma_registered_wf(self@, parent_hash, payload_attributes@, fork, block_hash);
            lemma_stored_after_touched(
                old(self)@.attributes,
                old(self)@.attributes_capacity,
                attributes_key@,
                RecordView::PayloadId(id),
            );
        }
        self.payload_attributes.put(attributes_key, Record::PayloadId(id));
        self.payloads.put(key_of_hash(&id), Record::Payload(payload));
        self.next_payload_id = self.next_payload_id + 1;
        proof {
            assert(call_ensures(
                seal,
                (&unsealed, payload_attributes.parent_beacon_block_root),
                block_hash,
            ));
            assert(self@ == old(self)@.registered(
                parent_hash,
                payload_attributes@,
                fork,
                block_hash,
            ));
        }
        Ok(id)
    }
}

impl Multiplexer {
    /// A registration of attributes that took the multiplexer from `self` to
    /// `after` and ended in `r`: attributes of a time before genesis, or
    /// where a slot has no length, are refused; the others are registered
    /// with the builder, for the fork of the slot that their time lies in.
    pub open spec fn registers_attributes<F: Fn(&ExecutionPayload, Option<BlockHash>) -> BlockHash>(
        &self,
        after: &Multiplexer,
        parent_hash: BlockHash,
        attributes: &PayloadAttributes,
        seal: F,
        r: Result<PayloadId, String>,
    ) -> bool {
        match self.spec.slot_of_timestamp(self.genesis_time, attributes.timestamp) {
            None => {
                &&& after.payload_builder@ == self.payload_builder@
                &&& r matches Err(message)
                &&& message@ == "invalid timestamp "@ + decimal_text(attributes.timestamp as nat)
            },
            Some(slot) => registers(
                self.payload_builder@,
                after.payload_builder@,
                parent_hash,
                attributes,
                self.spec.fork_name_at_slot_spec(slot),
                seal,
                r,
            ),
        }
    }

    /// Registers payload attributes on a parent block, and builds a payload
    /// for them unless they are registered already. `seal` gives the block
    /// hash of the payload that was built.
    pub fn register_attributes<F: Fn(&ExecutionPayload, Option<BlockHash>) -> BlockHash>(
        &mut self,
        parent_hash: BlockHash,
        payload_attributes: &PayloadAttributes,
        seal: F,
    ) -> (r: Result<PayloadId, String>)
        requires
            old(self).wf(),
            forall|payload: &ExecutionPayload, root: Option<BlockHash>| #[trigger]
                call_requires(seal, (payload, root)),
        ensures
            final(self).wf(),
            final(self).same_settings(old(self)),
            final(self).fcu_cache == old(self).fcu_cache,
            final(self).new_payload_cache == old(self).new_payload_cache,
            old(self).registers_attributes(final(self), parent_hash, payload_attributes, seal, r),
    {
        let timestamp = payload_attributes.timestamp;
        let slot = match self.timestamp_to_slot(timestamp) {
            Some(slot) => slot,
            None => {
                return Err(joined("invalid timestamp ", decimal_string(timestamp).as_str()));
            },
        };
        let fork_name = self.spec.fork_name_at_slot(slot);
        self.payload_builder.register_attributes(parent_hash, payload_attributes, fork_name, seal)
    }

    /// The id under which a parent block and attributes are registered.
    pub fn get_existing_payload_id(
        &mut self,
        parent_hash: &BlockHash,
        payload_attributes: &PayloadAttributes,
    ) -> (r: Result<PayloadId, String>)
        requires
            old(self).wf(),
        ensures
            final(self).wf(),
            final(self).same_settings(old(self)),
            final(self).fcu_cache == old(self).fcu_cache,
            final(self).new_payload_cache == old(self).new_payload_cache,
            final(self).payload_builder@ == old(self).payload_builder@.after_id_lookup(
                *parent_hash,
                payload_attributes@,
            ),
            match r {
                Ok(id) => old(self).payload_builder@.known_id(*parent_hash, payload_attributes@)
                    == Some(id),
                Err(message) => old(self).payload_builder@.known_id(
                    *parent_hash,
                    payload_attributes@,
                ) is None && message@ == "no payload ID known for parent "@ + hex_text(
                    parent_hash@,
                ),
            },
    {
        self.payload_builder.get_existing_payload_id(parent_hash, payload_attributes)
    }

    /// Registers a block of the canonical chain with what the engine said of it.
    pub fn register_canonical_payload(
        &mut self,
        block_hash: &BlockHash,
        info: PayloadInfo,
        status: Status,
    )
        requires
            old(self).wf(),
        ensures
            final(self).wf(),
            final(self).same_settings(old(self)),
            final(self).fcu_cache == old(self).fcu_cache,
            final(self).new_payload_cache == old(self).new_payload_cache,
            final(self).payload_builder@ == old(self).payload_builder@.canonical(
                *block_hash,
                info,
                status,
            ),
    {
        self.payload_builder.register_canonical_payload(block_hash, info, status)
    }

    /// The payload that is kept under an id.
    pub fn get_payload(&mut self, payload_id: PayloadId) -> (r: Result<ExecutionPayload, String>)
        requires
            old(self).wf(),
        ensures
            final(self).wf(),
            final(self).same_settings(old(self)),
            final(self).fcu_cache == old(self).fcu_cache,
            final(self).new_payload_cache == old(self).new_payload_cache,
            final(self).payload_builder@ == old(self).payload_builder@.after_payload_lookup(
                payload_id,
            ),
            match r {
                Ok(payload) => old(self).payload_builder@.payload_of(payload_id) == Some(payload@),
                Err(message) => old(self).payload_builder@.payload_of(payload_id) is None
                    && message@ == "unknown payload ID: "@ + decimal_text(
                    crate::hash::be_value(payload_id@),
                ),
            },
    {
        self.payload_builder.get_payload(&payload_id)
    }

    /// Answers a request for the payload under an id: the payload in the
    /// envelope of its fork, or the error that the id is unknown.
    pub fn handle_get_payload(&mut self, payload_id: PayloadId) -> (r: Result<
        GetPayloadResponse,
        JsonError,
    >)
        requires
            old(self).wf(),
        ensures
            final(self).wf(),
            final(self).same_settings(old(self)),
            final(self).fcu_cache == old(self).fcu_cache,
            final(self).new_payload_cache == old(self).new_payload_cache,
            final(self).payload_builder@ == old(self).payload_builder@.after_payload_lookup(
                payload_id,
            ),
            match r {
                Ok(response) => old(self).payload_builder@.payload_of(payload_id) matches Some(
                    payload,
                ) && response.wraps(payload),
                Err(error) => old(self).payload_builder@.payload_of(payload_id) is None
                    && error.code == ErrorCode::UnknownPayload && error.message@
                    == "unknown payload ID: "@ + decimal_text(crate::hash::be_value(payload_id@)),
            },
    {
        match self.get_payload(payload_id) {
            Ok(payload) => Ok(GetPayloadResponse::wrap(payload)),
            Err(message) => Err(JsonError { code: ErrorCode::UnknownPayload, message }),
        }
    }
}

} // verus!
