//! What one iteration of the sampling loop asks its caller to do.
//!
//! The library decides and the caller acts: an [`Iteration`] lists, for every
//! virtual machine found, the directories to have in place and the energy to
//! add to its counter, and says whether stale process records are due for
//! pruning. [`Failure`] tells the caller which mishaps on the way end the
//! process and which it reports and leaves behind.

use vstd::prelude::*;
use crate::allocation::allocation;
use crate::classifier::classified;
use crate::identity::vm_identity;
use crate::layout::{counter_directory, counter_file, marker_directory};
use crate::process::RecordModel;

verus! {

/// The energy to charge a virtual machine for one interval.
#[derive(Clone, Copy, Debug, PartialEq, Eq, Structural)]
pub enum Allocation {
    /// The machine's CPU share is not known for this interval: its counter
    /// stays as it is.
    Skipped,
    /// The CPU share or the host's energy is not written as a plain decimal
    /// number, so that no share could be taken here.
    Unreadable,
    /// Microjoules to add to the machine's counter.
    Energy(u64),
}

/// What to do for one virtual machine.
#[derive(Debug)]
pub struct VmUpdate {
    /// The machine's identity.
    pub identity: String,
    /// Directory to have in place for the machine, whatever its allocation.
    pub marker_directory: String,
    /// Directory to have in place before the counter is written.
    pub counter_directory: String,
    /// File that holds the machine's counter.
    pub counter_file: String,
    /// The energy to add to the counter.
    pub allocation: Allocation,
}

/// What a [`VmUpdate`] holds, as mathematical values.
pub ghost struct UpdateModel {
    pub identity: Seq<char>,
    pub marker_directory: Seq<char>,
    pub counter_directory: Seq<char>,
    pub counter_file: Seq<char>,
    pub allocation: Allocation,
}

impl View for VmUpdate {
    type V = UpdateModel;

    open spec fn view(&self) -> UpdateModel {
        UpdateModel {
            identity: self.identity@,
            marker_directory: self.marker_directory@,
            counter_directory: self.counter_directory@,
            counter_file: self.counter_file@,
            allocation: self.allocation,
        }
    }
}

impl DeepView for VmUpdate {
    type V = UpdateModel;

    open spec fn deep_view(&self) -> UpdateModel {
        self@
    }
}

/// What one iteration asks of its caller.
#[derive(Debug)]
pub struct Iteration {
    /// One entry for each virtual machine, in the order of the groups given.
    pub updates: Vec<VmUpdate>,
    /// Whether to prune the records of processes that have ended.
    pub cleanup: bool,
}

/// The energy to charge the machine that `group` stands for: the share
/// that the newest record's CPU percentage makes of `energy`.
pub open spec fn allocation_of(energy: Seq<char>, group: Seq<RecordModel>) -> Allocation {
    match group.first().cpu_usage {
        None => Allocation::Skipped,
        Some(percentage) => match allocation(percentage, energy) {
            Some(microjoules) => Allocation::Energy(microjoules),
            None => Allocation::Unreadable,
        },
    }
}

/// What to do for the machine that `group` stands for. The machine is
/// named after the oldest record's command line: what a hypervisor was
/// started with is what it runs.
pub open spec fn update_of(base: Seq<char>, energy: Seq<char>, group: Seq<RecordModel>)
    -> UpdateModel
    recommends
        group.len() > 0,
{
    let identity = vm_identity(group.last().cmdline);
    UpdateModel {
        identity,
        marker_directory: marker_directory(base, identity),
        counter_directory: counter_directory(base, identity),
        counter_file: counter_file(base, identity),
        allocation: allocation_of(energy, group),
    }
}

/// What to do in an interval over which the host's energy reads `energy`:
/// nothing where it is not known, and else one update for each group that
/// stands for a virtual machine.
pub open spec fn planned_updates(
    base: Seq<char>,
    energy: Option<Seq<char>>,
    groups: Seq<Seq<RecordModel>>,
) -> Seq<UpdateModel> {
    match energy {
        None => Seq::empty(),
        Some(energy) => classified(groups).map_values(
            |group: Seq<RecordModel>| update_of(base, energy, group),
        ),
    }
}

/// What can go wrong while a plan is carried out.
#[derive(Clone, Copy, Debug, PartialEq, Eq, Structural)]
pub enum Failure {
    /// The base directory is not there and could not be made.
    BaseDirectory,
    /// A directory of a virtual machine is not there and could not be made.
    VmDirectory,
    /// A counter file could not be written.
    CounterWrite,
}

impl Failure {
    /// Whether the failure ends the process. Without its directories
    /// nothing can be published; a counter that could not be written is
    /// reported, and written again an interval later.
    pub fn is_fatal(&self) -> (fatal: bool)
        ensures
            fatal == !(self is CounterWrite),
    {
        match self {
            Failure::BaseDirectory => true,
            Failure::VmDirectory => true,
            Failure::CounterWrite => false,
        }
    }
}

} // verus!
