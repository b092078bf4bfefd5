//! What the engine API speaks of: payload statuses, payload attributes,
//! execution payloads and what is remembered of a canonical block.

use crate::hash::{Address, BlockHash, PayloadId};
use crate::uint256::Uint256;
use vstd::prelude::*;

verus! {

/// The verdict of an execution engine on a payload or a fork choice.
#[derive(Clone, Copy, Debug, PartialEq, Eq, Structural)]
pub enum Status {
    Valid,
    Invalid,
    Syncing,
    Accepted,
    InvalidBlockHash,
}

impl Status {
    /// A definite verdict is one that no later verdict replaces.
    pub open spec fn definite(self) -> bool {
        self is Valid || self is Invalid || self is InvalidBlockHash
    }

    pub fn is_definite(self) -> (r: bool)
        ensures
            r == self.definite(),
    {
        match self {
            Status::Valid | Status::Invalid | Status::InvalidBlockHash => true,
            Status::Accepted | Status::Syncing => false,
        }
    }
}

/// A verdict with what the engine said beside it.
#[derive(Debug, PartialEq, Eq)]
pub struct PayloadStatus {
    pub status: Status,
    pub latest_valid_hash: Option<BlockHash>,
    pub validation_error: Option<String>,
}

impl Clone for PayloadStatus {
    fn clone(&self) -> (r: Self)
        ensures
            r == *self,
    {
        PayloadStatus {
            status: self.status,
            latest_valid_hash: self.latest_valid_hash,
            validation_error: match &self.validation_error {
                Some(text) => Some(text.clone()),
                None => None,
            },
        }
    }
}

impl PayloadStatus {
    /// The status that a follower gets where nothing is known.
    pub open spec fn syncing_spec() -> PayloadStatus {
        PayloadStatus { status: Status::Syncing, latest_valid_hash: None, validation_error: None }
    }

    pub fn syncing() -> (r: PayloadStatus)
        ensures
            r == PayloadStatus::syncing_spec(),
    {
        PayloadStatus { status: Status::Syncing, latest_valid_hash: None, validation_error: None }
    }
}

/// One withdrawal of a payload.
#[derive(Clone, Copy, Debug, PartialEq, Eq)]
pub struct Withdrawal {
    pub index: u64,
    pub validator_index: u64,
    pub address: Address,
    pub amount: u64,
}

/// A copy of a list of withdrawals.
pub fn copy_withdrawals(list: &Vec<Withdrawal>) -> (r: Vec<Withdrawal>)
    ensures
        r@ == list@,
{
    let mut r: Vec<Withdrawal> = Vec::new();
    let mut i: usize = 0;
    while i < list.len()
        invariant
            i <= list.len(),
            r@ == list@.subrange(0, i as int),
        decreases list.len() - i,
    {
        r.push(list[i]);
        i += 1;
        assert(r@ =~= list@.subrange(0, i as int));
    }
    assert(list@.subrange(0, list.len() as int) =~= list@);
    r
}

/// A copy of a list of bytes.
pub fn copy_bytes(list: &Vec<u8>) -> (r: Vec<u8>)
    ensures
        r@ == list@,
{
    let mut r: Vec<u8> = Vec::new();
    let mut i: usize = 0;
    while i < list.len()
        invariant
            i <= list.len(),
            r@ == list@.subrange(0, i as int),
        decreases list.len() - i,
    {
        r.push(list[i]);
        i += 1;
        assert(r@ =~= list@.subrange(0, i as int));
    }
    assert(list@.subrange(0, list.len() as int) =~= list@);
    r
}

/// The byte strings that a list holds.
pub open spec fn byte_lists(list: Vec<Vec<u8>>) -> Seq<Seq<u8>> {
    Seq::new(list.len() as nat, |i: int| list[i]@)
}

/// A copy of a list of byte strings.
pub fn copy_byte_lists(list: &Vec<Vec<u8>>) -> (r: Vec<Vec<u8>>)
    ensures
        byte_lists(r) == byte_lists(*list),
{
    let mut r: Vec<Vec<u8>> = Vec::new();
    let mut i: usize = 0;
    while i < list.len()
        invariant
            i <= list.len(),
            r.len() == i,
            forall|j: int| 0 <= j < i ==> r[j]@ == list[j]@,
        decreases list.len() - i,
    {
        r.push(copy_bytes(&list[i]));
        i += 1;
    }
    assert(byte_lists(r) =~= byte_lists(*list));
    r
}

/// What a consensus client asks a payload to be built with.
#[derive(Debug, PartialEq, Eq)]
pub struct PayloadAttributes {
    pub timestamp: u64,
    pub prev_randao: BlockHash,
    pub suggested_fee_recipient: Address,
    pub withdrawals: Option<Vec<Withdrawal>>,
    pub parent_beacon_block_root: Option<BlockHash>,
}

pub struct PayloadAttributesView {
    pub timestamp: u64,
    pub prev_randao: BlockHash,
    pub suggested_fee_recipient: Address,
    pub withdrawals: Option<Seq<Withdrawal>>,
    pub parent_beacon_block_root: Option<BlockHash>,
}

impl View for PayloadAttributes {
    type V = PayloadAttributesView;

    open spec fn view(&self) -> PayloadAttributesView {
        PayloadAttributesView {
            timestamp: self.timestamp,
            prev_randao: self.prev_randao,
            suggested_fee_recipient: self.suggested_fee_recipient,
            withdrawals: match self.withdrawals {
                Some(list) => Some(list@),
                None => None,
            },
            parent_beacon_block_root: self.parent_beacon_block_root,
        }
    }
}

impl Clone for PayloadAttributes {
    fn clone(&self) -> (r: Self)
        ensures
            r@ == self@,
    {
        PayloadAttributes {
            timestamp: self.timestamp,
            prev_randao: self.prev_randao,
            suggested_fee_recipient: self.suggested_fee_recipient,
            withdrawals: match &self.withdrawals {
                Some(list) => Some(copy_withdrawals(list)),
                None => None,
            },
            parent_beacon_block_root: self.parent_beacon_block_root,
        }
    }
}

/// What is remembered of a canonical block, to build a payload on it.
#[derive(Clone, Copy, Debug, PartialEq, Eq)]
pub struct PayloadInfo {
    /// Execution block number.
    pub block_number: u64,
    /// Execution state root, used as the state root of a payload built on the block.
    pub state_root: BlockHash,
    /// The block's base fee and gas, from which its child's base fee follows.
    pub base_fee_per_gas: Uint256,
    pub gas_used: u64,
    pub gas_limit: u64,
}

/// The fields that the payloads of every fork have.
#[derive(Debug, PartialEq, Eq)]
pub struct PayloadHeader {
    pub parent_hash: BlockHash,
    pub fee_recipient: Address,
    pub state_root: BlockHash,
    pub receipts_root: BlockHash,
    pub logs_bloom: [u8; 256],
    pub prev_randao: BlockHash,
    pub block_number: u64,
    pub gas_limit: u64,
    pub gas_used: u64,
    pub timestamp: u64,
    pub extra_data: Vec<u8>,
    pub base_fee_per_gas: Uint256,
    pub block_hash: BlockHash,
    pub transactions: Vec<Vec<u8>>,
}

pub struct PayloadHeaderView {
    pub parent_hash: BlockHash,
    pub fee_recipient: Address,
    pub state_root: BlockHash,
    pub receipts_root: BlockHash,
    pub logs_bloom: [u8; 256],
    pub prev_randao: BlockHash,
    pub block_number: u64,
    pub gas_limit: u64,
    pub gas_used: u64,
    pub timestamp: u64,
    pub extra_data: Seq<u8>,
    pub base_fee_per_gas: Uint256,
    pub block_hash: BlockHash,
    pub transactions: Seq<Seq<u8>>,
}

impl View for PayloadHeader {
    type V = PayloadHeaderView;

    open spec fn view(&self) -> PayloadHeaderView {
        PayloadHeaderView {
            parent_hash: self.parent_hash,
            fee_recipient: self.fee_recipient,
            state_root: self.state_root,
            receipts_root: self.receipts_root,
            logs_bloom: self.logs_bloom,
            prev_randao: self.prev_randao,
            block_number: self.block_number,
            gas_limit: self.gas_limit,
            gas_used: self.gas_used,
            timestamp: self.timestamp,
            extra_data: self.extra_data@,
            base_fee_per_gas: self.base_fee_per_gas,
            block_hash: self.block_hash,
            transactions: byte_lists(self.transactions),
        }
    }
}

impl Clone for PayloadHeader {
    fn clone(&self) -> (r: Self)
        ensures
            r@ == self@,
    {
        PayloadHeader {
            parent_hash: self.parent_hash,
            fee_recipient: self.fee_recipient,
            state_root: self.state_root,
            receipts_root: self.receipts_root,
            logs_bloom: self.logs_bloom,
            prev_randao: self.prev_randao,
            block_number: self.block_number,
            gas_limit: self.gas_limit,
            gas_used: self.gas_used,
            timestamp: self.timestamp,
            extra_data: copy_bytes(&self.extra_data),
            base_fee_per_gas: self.base_fee_per_gas,
            block_hash: self.block_hash,
            transactions: copy_byte_lists(&self.transactions),
        }
    }
}

/// The blob gas fields of a payload, from Deneb on.
#[derive(Clone, Copy, Debug, PartialEq, Eq)]
pub struct BlobGas {
    pub blob_gas_used: u64,
    pub excess_blob_gas: u64,
}

/// An execution payload, by the fork that it belongs to.
#[derive(Debug, PartialEq, Eq)]
pub enum ExecutionPayload {
    Bellatrix { header: PayloadHeader },
    Capella { header: PayloadHeader, withdrawals: Vec<Withdrawal> },
    Deneb { header: PayloadHeader, withdrawals: Vec<Withdrawal>, blob_gas: BlobGas },
    Electra { header: PayloadHeader, withdrawals: Vec<Withdrawal>, blob_gas: BlobGas },
}

pub enum ExecutionPayloadView {
    Bellatrix { header: PayloadHeaderView },
    Capella { header: PayloadHeaderView, withdrawals: Seq<Withdrawal> },
    Deneb { header: PayloadHeaderView, withdrawals: Seq<Withdrawal>, blob_gas: BlobGas },
    Electra { header: PayloadHeaderView, withdrawals: Seq<Withdrawal>, blob_gas: BlobGas },
}

impl ExecutionPayloadView {
    pub open spec fn header(self) -> PayloadHeaderView {
        match self {
            ExecutionPayloadView::Bellatrix { header } => header,
            ExecutionPayloadView::Capella { header, .. } => header,
            ExecutionPayloadView::Deneb { header, .. } => header,
            ExecutionPayloadView::Electra { header, .. } => header,
        }
    }

    /// The same payload under another block hash.
    pub open spec fn with_block_hash(self, block_hash: BlockHash) -> ExecutionPayloadView {
        match self {
            ExecutionPayloadView::Bellatrix { header } => ExecutionPayloadView::Bellatrix {
                header: PayloadHeaderView { block_hash, ..header },
            },
            ExecutionPayloadView::Capella { header, withdrawals } => ExecutionPayloadView::Capella {
                header: PayloadHeaderView { block_hash, ..header },
                withdrawals,
            },
            ExecutionPayloadView::Deneb {
                header,
                withdrawals,
                blob_gas,
            } => ExecutionPayloadView::Deneb {
                header: PayloadHeaderView { block_hash, ..header },
                withdrawals,
                blob_gas,
            },
            ExecutionPayloadView::Electra {
                header,
                withdrawals,
                blob_gas,
            } => ExecutionPayloadView::Electra {
                header: PayloadHeaderView { block_hash, ..header },
                withdrawals,
                blob_gas,
            },
        }
    }
}

impl View for ExecutionPayload {
    type V = ExecutionPayloadView;

    open spec fn view(&self) -> ExecutionPayloadView {
        match self {
            ExecutionPayload::Bellatrix { header } => ExecutionPayloadView::Bellatrix {
                header: header@,
            },
            ExecutionPayload::Capella { header, withdrawals } => ExecutionPayloadView::Capella {
                header: header@,
                withdrawals: withdrawals@,
            },
            ExecutionPayload::Deneb { header, withdrawals, blob_gas } => ExecutionPayloadView::Deneb {
                header: header@,
                withdrawals: withdrawals@,
                blob_gas: *blob_gas,
            },
            ExecutionPayload::Electra {
                header,
                withdrawals,
                blob_gas,
            } => ExecutionPayloadView::Electra {
                header: header@,
                withdrawals: withdrawals@,
                blob_gas: *blob_gas,
            },
        }
    }
}

impl Clone for ExecutionPayload {
    fn clone(&self) -> (r: Self)
        ensures
            r@ == self@,
    {
        match self {
            ExecutionPayload::Bellatrix { header } => ExecutionPayload::Bellatrix {
                header: header.clone(),
            },
            ExecutionPayload::Capella { header, withdrawals } => ExecutionPayload::Capella {
                header: header.clone(),
                withdrawals: copy_withdrawals(withdrawals),
            },
            ExecutionPayload::Deneb { header, withdrawals, blob_gas } => ExecutionPayload::Deneb {
                header: header.clone(),
                withdrawals: copy_withdrawals(withdrawals),
                blob_gas: *blob_gas,
            },
            ExecutionPayload::Electra { header, withdrawals, blob_gas } => ExecutionPayload::Electra {
                header: header.clone(),
                withdrawals: copy_withdrawals(withdrawals),
                blob_gas: *blob_gas,
            },
        }
    }
}

impl ExecutionPayload {
    /// The fields that the payloads of every fork have.
    pub fn header(&self) -> (r: &PayloadHeader)
        ensures
            r@ == self@.header(),
    {
        match self {
            ExecutionPayload::Bellatrix { header } => header,
            ExecutionPayload::Capella { header, .. } => header,
            ExecutionPayload::Deneb { header, .. } => header,
            ExecutionPayload::Electra { header, .. } => header,
        }
    }

    pub fn block_hash(&self) -> (r: BlockHash)
        ensures
            r == self@.header().block_hash,
    {
        self.header().block_hash
    }

    pub fn block_number(&self) -> (r: u64)
        ensures
            r == self@.header().block_number,
    {
        self.header().block_number
    }

    /// The same payload under another block hash.
    pub fn set_block_hash(self, block_hash: BlockHash) -> (r: ExecutionPayload)
        ensures
            r@ == self@.with_block_hash(block_hash),
    {
        match self {
            ExecutionPayload::Bellatrix { mut header } => {
                header.block_hash = block_hash;
                ExecutionPayload::Bellatrix { header }
            },
            ExecutionPayload::Capella { mut header, withdrawals } => {
                header.block_hash = block_hash;
                ExecutionPayload::Capella { header, withdrawals }
            },
            ExecutionPayload::Deneb { mut header, withdrawals, blob_gas } => {
                header.block_hash = block_hash;
                ExecutionPayload::Deneb { header, withdrawals, blob_gas }
            },
            ExecutionPayload::Electra { mut header, withdrawals, blob_gas } => {
                header.block_hash = block_hash;
                ExecutionPayload::Electra { header, withdrawals, blob_gas }
            },
        }
    }
}

/// What the cache of payloads keeps of one block.
#[derive(Debug, PartialEq, Eq)]
pub struct NewPayloadCacheEntry {
    pub status: PayloadStatus,
    pub block_number: u64,
}

impl Clone for NewPayloadCacheEntry {
    fn clone(&self) -> (r: Self)
        ensures
            r == *self,
    {
        NewPayloadCacheEntry { status: self.status.clone(), block_number: self.block_number }
    }
}

/// The answer to a fork choice update.
#[derive(Debug, PartialEq, Eq)]
pub struct ForkchoiceUpdatedResponse {
    pub payload_status: PayloadStatus,
    pub payload_id: Option<PayloadId>,
}

} // verus!
