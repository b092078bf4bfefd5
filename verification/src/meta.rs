//! Requests about the engine itself.

use crate::multiplexer::Multiplexer;
use vstd::prelude::*;

verus! {

/// The capabilities of the engine are asked for anew once they are this old, in seconds.
pub const CAPABILITIES_MAX_AGE_SECS: u64 = 900;

impl Multiplexer {
    /// Whether the engine is syncing, as the consensus nodes are told: never.
    pub fn handle_syncing(&self) -> (syncing: bool)
        ensures
            !syncing,
    {
        false
    }
}

} // verus!
