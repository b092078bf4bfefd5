//! The forks of the chain and the slots at which they begin.

use vstd::prelude::*;

verus! {

/// The forks, oldest first.
#[derive(Clone, Copy, Debug, PartialEq, Eq, Structural)]
pub enum ForkName {
    Base,
    Altair,
    Bellatrix,
    Capella,
    Deneb,
    Electra,
}

impl ForkName {
    /// The name of the fork as it is written in messages.
    pub open spec fn name_spec(self) -> Seq<char> {
        match self {
            ForkName::Base => "phase0"@,
            ForkName::Altair => "altair"@,
            ForkName::Bellatrix => "bellatrix"@,
            ForkName::Capella => "capella"@,
            ForkName::Deneb => "deneb"@,
            ForkName::Electra => "electra"@,
        }
    }

    pub fn name(self) -> (r: &'static str)
        ensures
            r@ == self.name_spec(),
    {
        match self {
            ForkName::Base => "phase0",
            ForkName::Altair => "altair",
            ForkName::Bellatrix => "bellatrix",
            ForkName::Capella => "capella",
            ForkName::Deneb => "deneb",
            ForkName::Electra => "electra",
        }
    }
}

/// Whether a fork that begins at `fork_epoch`, if it is scheduled at all, has begun at `epoch`.
pub open spec fn begun(fork_epoch: Option<u64>, epoch: u64) -> bool {
    fork_epoch matches Some(first) && epoch >= first
}

/// The length of a slot and of an epoch, and the epoch at which each fork begins.
#[derive(Clone, Copy, Debug, PartialEq, Eq)]
pub struct ForkSchedule {
    pub seconds_per_slot: u64,
    pub slots_per_epoch: u64,
    pub altair_fork_epoch: Option<u64>,
    pub bellatrix_fork_epoch: Option<u64>,
    pub capella_fork_epoch: Option<u64>,
    pub deneb_fork_epoch: Option<u64>,
    pub electra_fork_epoch: Option<u64>,
}

impl ForkSchedule {
    /// The latest fork that has begun at the epoch, looking from the newest
    /// back; before all of them, the base fork.
    pub open spec fn fork_name_at_epoch_spec(self, epoch: u64) -> ForkName {
        if begun(self.electra_fork_epoch, epoch) {
            ForkName::Electra
        } else if begun(self.deneb_fork_epoch, epoch) {
            ForkName::Deneb
        } else if begun(self.capella_fork_epoch, epoch) {
            ForkName::Capella
        } else if begun(self.bellatrix_fork_epoch, epoch) {
            ForkName::Bellatrix
        } else if begun(self.altair_fork_epoch, epoch) {
            ForkName::Altair
        } else {
            ForkName::Base
        }
    }

    /// The fork of the epoch that the slot lies in.
    pub open spec fn fork_name_at_slot_spec(self, slot: u64) -> ForkName
        recommends
            self.slots_per_epoch > 0,
    {
        self.fork_name_at_epoch_spec((slot / self.slots_per_epoch) as u64)
    }

    /// The slot that begins `seconds_per_slot` times its number after genesis.
    pub open spec fn slot_of_timestamp(self, genesis_time: u64, timestamp: u64) -> Option<u64> {
        if timestamp < genesis_time || self.seconds_per_slot == 0 {
            None
        } else {
            Some(((timestamp - genesis_time) / (self.seconds_per_slot as int)) as u64)
        }
    }

    pub fn fork_name_at_epoch(&self, epoch: u64) -> (fork: ForkName)
        ensures
            fork == self.fork_name_at_epoch_spec(epoch),
    {
        if has_begun(self.electra_fork_epoch, epoch) {
            ForkName::Electra
        } else if has_begun(self.deneb_fork_epoch, epoch) {
            ForkName::Deneb
        } else if has_begun(self.capella_fork_epoch, epoch) {
            ForkName::Capella
        } else if has_begun(self.bellatrix_fork_epoch, epoch) {
            ForkName::Bellatrix
        } else if has_begun(self.altair_fork_epoch, epoch) {
            ForkName::Altair
        } else {
            ForkName::Base
        }
    }

    pub fn fork_name_at_slot(&self, slot: u64) -> (fork: ForkName)
        requires
            self.slots_per_epoch > 0,
        ensures
            fork == self.fork_name_at_slot_spec(slot),
    {
        self.fork_name_at_epoch(slot / self.slots_per_epoch)
    }

    pub fn timestamp_to_slot(&self, genesis_time: u64, timestamp: u64) -> (slot: Option<u64>)
        ensures
            slot == self.slot_of_timestamp(genesis_time, timestamp),
    {
        if timestamp < genesis_time || self.seconds_per_slot == 0 {
            None
        } else {
            Some((timestamp - genesis_time) / self.seconds_per_slot)
        }
    }
}

fn has_begun(fork_epoch: Option<u64>, epoch: u64) -> (r: bool)
    ensures
        r == begun(fork_epoch, epoch),
{
    match fork_epoch {
        Some(first) => epoch >= first,
        None => false,
    }
}

} // verus!
