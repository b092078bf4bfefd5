//! What the operator chooses: the sizes of the caches, how a follower's fork
//! choice is matched, and how long a follower waits.

use crate::text::same_text;
use vstd::prelude::*;

verus! {

/// How a follower's fork choice is matched against those of the controller.
#[derive(Clone, Copy, Debug, PartialEq, Eq, Structural)]
pub enum FcuMatching {
    /// Head, safe and finalized block are those of one fork choice of the controller.
    Exact,
    /// The head is that of a fork choice of the controller; the safe and the
    /// finalized block are ones that the controller has had confirmed, though
    /// not necessarily together.
    Loose,
    /// The head is that of a fork choice of the controller; nothing else is looked at.
    HeadOnly,
}

impl FcuMatching {
    pub open spec fn name_spec(self) -> Seq<char> {
        match self {
            FcuMatching::Exact => "exact"@,
            FcuMatching::Loose => "loose"@,
            FcuMatching::HeadOnly => "head-only"@,
        }
    }

    /// The name by which the operator chooses this way of matching.
    pub fn name(self) -> (r: &'static str)
        ensures
            r@ == self.name_spec(),
    {
        match self {
            FcuMatching::Exact => "exact",
            FcuMatching::Loose => "loose",
            FcuMatching::HeadOnly => "head-only",
        }
    }

    /// The way of matching with the given name.
    pub fn from_name(name: &str) -> (r: Option<FcuMatching>)
        ensures
            match r {
                Some(matching) => name@ == matching.name_spec(),
                None => name@ != "exact"@ && name@ != "loose"@ && name@ != "head-only"@,
            },
    {
        if same_text(name, "exact") {
            Some(FcuMatching::Exact)
        } else if same_text(name, "loose") {
            Some(FcuMatching::Loose)
        } else if same_text(name, "head-only") {
            Some(FcuMatching::HeadOnly)
        } else {
            None
        }
    }
}

/// The settings that the caches and the handlers read.
#[derive(Debug, PartialEq, Eq)]
pub struct Config {
    /// Number of recent newPayload messages to cache in memory.
    pub new_payload_cache_size: usize,
    /// Number of recent forkchoiceUpdated messages to cache in memory.
    pub fcu_cache_size: usize,
    /// Number of payload attributes and past payloads to cache in memory.
    pub payload_builder_cache_size: usize,
    /// Number of justified block hashes to cache in memory.
    pub justified_block_cache_size: usize,
    /// Number of finalized block hashes to cache in memory.
    pub finalized_block_cache_size: usize,
    /// How a follower's fork choice is matched.
    pub fcu_matching: FcuMatching,
    /// Longest time, in milliseconds, that a follower waits for the status of a recent payload.
    pub new_payload_wait_millis: u128,
    /// A payload is recent if its number is at most this far below the highest cached one.
    pub new_payload_wait_cutoff: u64,
    /// Longest time, in milliseconds, that a follower waits for the status of a fork choice.
    pub fcu_wait_millis: u128,
    /// Largest JSON-RPC message accepted, in megabytes.
    pub body_limit_mb: usize,
    /// The extra data of the payloads that are built.
    pub payload_builder_extra_data: String,
}

impl Config {
    pub open spec fn default_spec(self) -> bool {
        &&& self.new_payload_cache_size == 64
        &&& self.fcu_cache_size == 64
        &&& self.payload_builder_cache_size == 8
        &&& self.justified_block_cache_size == 4
        &&& self.finalized_block_cache_size == 4
        &&& self.fcu_matching == FcuMatching::Loose
        &&& self.new_payload_wait_millis == 2000
        &&& self.new_payload_wait_cutoff == 64
        &&& self.fcu_wait_millis == 1000
        &&& self.body_limit_mb == 128
        &&& self.payload_builder_extra_data@ == Seq::<char>::empty()
    }

    /// Every cache holds at least one entry.
    pub open spec fn sizes_valid(self) -> bool {
        &&& self.new_payload_cache_size > 0
        &&& self.fcu_cache_size > 0
        &&& self.payload_builder_cache_size > 0
        &&& self.justified_block_cache_size > 0
        &&& self.finalized_block_cache_size > 0
    }
}

/// The bytes of a megabyte.
pub const MEGABYTE: usize = 1024 * 1024;

impl Config {
    /// The largest JSON-RPC message accepted, in bytes; a limit that no
    /// `usize` holds is the largest `usize`.
    pub fn body_limit_bytes(&self) -> (limit: usize)
        ensures
            limit == (if self.body_limit_mb * MEGABYTE <= usize::MAX {
                self.body_limit_mb * MEGABYTE
            } else {
                usize::MAX as int
            }),
    {
        if self.body_limit_mb <= usize::MAX / MEGABYTE {
            assert(self.body_limit_mb * MEGABYTE <= usize::MAX) by (nonlinear_arith)
                requires
                    self.body_limit_mb <= usize::MAX / MEGABYTE,
                    MEGABYTE == 1048576,
            ;
            self.body_limit_mb * MEGABYTE
        } else {
            assert(self.body_limit_mb * MEGABYTE > usize::MAX) by (nonlinear_arith)
                requires
                    self.body_limit_mb > usize::MAX / MEGABYTE,
                    MEGABYTE == 1048576,
            ;
            usize::MAX
        }
    }
}

impl Clone for Config {
    fn clone(&self) -> (r: Self)
        ensures
            r == *self,
    {
        Config {
            new_payload_cache_size: self.new_payload_cache_size,
            fcu_cache_size: self.fcu_cache_size,
            payload_builder_cache_size: self.payload_builder_cache_size,
            justified_block_cache_size: self.justified_block_cache_size,
            finalized_block_cache_size: self.finalized_block_cache_size,
            fcu_matching: self.fcu_matching,
            new_payload_wait_millis: self.new_payload_wait_millis,
            new_payload_wait_cutoff: self.new_payload_wait_cutoff,
            fcu_wait_millis: self.fcu_wait_millis,
            body_limit_mb: self.body_limit_mb,
            payload_builder_extra_data: self.payload_builder_extra_data.clone(),
        }
    }
}

impl Default for Config {
    fn default() -> (config: Config)
        ensures
            config.default_spec(),
    {
        Config {
            new_payload_cache_size: 64,
            fcu_cache_size: 64,
            payload_builder_cache_size: 8,
            justified_block_cache_size: 4,
            finalized_block_cache_size: 4,
            fcu_matching: FcuMatching::Loose,
            new_payload_wait_millis: 2000,
            new_payload_wait_cutoff: 64,
            fcu_wait_millis: 1000,
            body_limit_mb: 128,
            payload_builder_extra_data: String::new(),
        }
    }
}

} // verus!
