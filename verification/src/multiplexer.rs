//! The state of the multiplexer: its caches, its payload builder, and what
//! was configured.

use crate::config::Config;
use crate::fcu::{FcuCache, FcuView};
use crate::fork::ForkSchedule;
use crate::new_payload::{NewPayloadCache, NewPayloadView};
use crate::payload::PayloadStatus;
use crate::payload_builder::{extra_data_of, BuilderView, PayloadBuilder};
use crate::types::JsonError;
use vstd::prelude::*;
use vstd::string::StringExecFns;

verus! {

/// What the execution engine has said of a request of the controller.
#[derive(Debug, PartialEq, Eq)]
pub enum EngineReply {
    /// The engine has not been asked yet.
    NotAsked,
    /// The engine has answered with this status.
    Answered(PayloadStatus),
    /// The engine could not be reached, or answered with an error.
    Failed,
}

/// What is to be done next for a request of the controller.
#[derive(Debug, PartialEq, Eq)]
pub enum ControllerStep<T> {
    /// Pass the request on to the engine, and come back with what it said.
    AskEngine,
    /// Answer the controller.
    Done(Result<T, JsonError>),
}

/// The time between two looks into a cache while a follower waits, in milliseconds.
pub const POLL_INTERVAL_MILLIS: u64 = 50;

pub struct Multiplexer {
    pub fcu_cache: FcuCache,
    pub new_payload_cache: NewPayloadCache,
    pub payload_builder: PayloadBuilder,
    /// The time of the genesis of the beacon chain, in seconds.
    pub genesis_time: u64,
    pub spec: ForkSchedule,
    pub config: Config,
}

impl Multiplexer {
    /// The caches are well formed and are those that were configured.
    pub open spec fn wf(&self) -> bool {
        &&& self.fcu_cache.wf()
        &&& self.new_payload_cache.wf()
        &&& self.payload_builder.wf()
        &&& self.fcu_cache@.matching == self.config.fcu_matching
        &&& self.new_payload_cache@.cutoff == self.config.new_payload_wait_cutoff
        &&& self.spec.slots_per_epoch > 0
    }

    /// Nothing of what was configured differs.
    pub open spec fn same_settings(&self, other: &Multiplexer) -> bool {
        &&& self.genesis_time == other.genesis_time
        &&& self.spec == other.spec
        &&& self.config == other.config
    }

    /// Whether a multiplexer can be made of the settings.
    pub open spec fn valid_settings(config: Config, spec: ForkSchedule) -> bool {
        config.sizes_valid() && spec.slots_per_epoch > 0
    }

    /// A multiplexer with empty caches of the sizes that were configured. A
    /// cache size of zero is refused, and so is an epoch of no slots.
    pub fn new(config: Config, spec: ForkSchedule, genesis_time: u64) -> (r: Result<
        Multiplexer,
        String,
    >)
        ensures
            match r {
                Ok(m) => {
                    &&& Self::valid_settings(config, spec)
                    &&& m.wf()
                    &&& m.config == config
                    &&& m.spec == spec
                    &&& m.genesis_time == genesis_time
                    &&& m.fcu_cache@ == (FcuView {
                        entries: Seq::empty(),
                        capacity: config.fcu_cache_size as nat,
                        justified: Seq::empty(),
                        justified_capacity: config.justified_block_cache_size as nat,
                        finalized: Seq::empty(),
                        finalized_capacity: config.finalized_block_cache_size as nat,
                        matching: config.fcu_matching,
                    })
                    &&& m.new_payload_cache@ == (NewPayloadView {
                        entries: Seq::empty(),
                        capacity: config.new_payload_cache_size as nat,
                        cutoff: config.new_payload_wait_cutoff,
                    })
                    &&& m.payload_builder@ == (BuilderView {
                        next_payload_id: 0,
                        attributes: Seq::empty(),
                        attributes_capacity: config.payload_builder_cache_size as nat,
                        info: Seq::empty(),
                        info_capacity: config.payload_builder_cache_size as nat,
                        payloads: Seq::empty(),
                        payloads_capacity: config.payload_builder_cache_size as nat,
                        extra_data: extra_data_of(
                            vstd::utf8::encode_utf8(config.payload_builder_extra_data@),
                        ),
                    })
                },
                Err(message) => !Self::valid_settings(config, spec) && message@ == (
                if config.sizes_valid() {
                    "invalid fork schedule"@
                } else {
                    "invalid cache size"@
                }),
            },
    {
        let fcu_cache = match FcuCache::new(
            config.fcu_cache_size,
            config.justified_block_cache_size,
            config.finalized_block_cache_size,
            config.fcu_matching,
        ) {
            Some(cache) => cache,
            None => {
                return Err(String::from_str("invalid cache size"));
            },
        };
        let new_payload_cache = match NewPayloadCache::new(
            config.new_payload_cache_size,
            config.new_payload_wait_cutoff,
        ) {
            Some(cache) => cache,
            None => {
                return Err(String::from_str("invalid cache size"));
            },
        };
        let payload_builder = match PayloadBuilder::new(
            config.payload_builder_cache_size,
            config.payload_builder_extra_data.as_str(),
        ) {
            Some(builder) => builder,
            None => {
                return Err(String::from_str("invalid cache size"));
            },
        };
        if spec.slots_per_epoch == 0 {
            return Err(String::from_str("invalid fork schedule"));
        }
        Ok(Multiplexer { fcu_cache, new_payload_cache, payload_builder, genesis_time, spec, config })
    }
}

} // verus!
