//! The exporter: its configuration and the state it carries from one
//! iteration of the sampling loop to the next.

use vstd::prelude::*;
use crate::classifier::{classified, is_vm_group};
use crate::layout::{counter_directory_path, counter_file_path, marker_directory_path};
use crate::process::{ProcessRecord, RecordModel};
use crate::publish::{planned_updates, update_of, Allocation, Iteration, VmUpdate};
use crate::schedule::{after_tick, fires, fresh, CleanupTimer, TimerModel};

verus! {

/// Publishes the power drawn by the QEMU/KVM virtual machines of a host as a
/// tree of directories and counter files that the guests can mount.
pub struct ProxmoxExporter {
    base_path: String,
    timer: CleanupTimer,
}

/// What a [`ProxmoxExporter`] holds, as mathematical values.
pub ghost struct ExporterModel {
    /// Directory under which every virtual machine gets its own subtree.
    pub base_path: Seq<char>,
    /// The count down to the next pruning of stale process records.
    pub timer: TimerModel,
}

impl View for ProxmoxExporter {
    type V = ExporterModel;

    closed spec fn view(&self) -> ExporterModel {
        ExporterModel { base_path: self.base_path@, timer: self.timer@ }
    }
}

impl ProxmoxExporter {
    /// An exporter that publishes under `base_path` and asks for stale
    /// process records to be pruned every `cleanup_period` iterations.
    pub fn new(base_path: String, cleanup_period: u64) -> (exporter: ProxmoxExporter)
        ensures
            exporter@ == (ExporterModel {
                base_path: base_path@,
                timer: fresh(cleanup_period as nat),
            }),
    {
        ProxmoxExporter { base_path, timer: CleanupTimer::new(cleanup_period) }
    }

    /// The name this exporter goes by.
    pub fn kind(&self) -> (kind: &str)
        ensures
            kind@ == "proxmox"@,
    {
        "proxmox"
    }

    /// Directory under which every virtual machine gets its own subtree.
    pub fn base_path(&self) -> (path: &str)
        ensures
            path@ == self@.base_path,
    {
        self.base_path.as_str()
    }

    /// The count down to the next pruning of stale process records.
    pub fn timer(&self) -> (timer: &CleanupTimer)
        ensures
            timer@ == self@.timer,
    {
        &self.timer
    }

    /// What to do for the virtual machine that `group` stands for, in an
    /// interval over which the host's energy reads `energy`.
    fn update_for(&self, energy: &str, group: &Vec<ProcessRecord>) -> (update: VmUpdate)
        requires
            group.len() > 0,
        ensures
            update@ == update_of(self@.base_path, energy@, group.deep_view()),
    {
        let newest = &group[0];
        let oldest = &group[group.len() - 1];
        let identity = ProxmoxExporter::get_vm_name_from_cmdline(oldest.cmdline.as_slice());
        let allocation = match &newest.cpu_usage {
            None => Allocation::Skipped,
            Some(percentage) => match ProxmoxExporter::allocate(percentage.as_str(), energy) {
                Some(microjoules) => Allocation::Energy(microjoules),
                None => Allocation::Unreadable,
            },
        };
        let base = self.base_path.as_str();
        VmUpdate {
            marker_directory: marker_directory_path(base, identity.as_str()),
            counter_directory: counter_directory_path(base, identity.as_str()),
            counter_file: counter_file_path(base, identity.as_str()),
            identity,
            allocation,
        }
    }

    /// One iteration of the sampling loop: what to publish for the groups
    /// `processes`, the newest record first in each, given `topo_energy`, the
    /// host's energy over the last interval where the sensor had one; and
    /// whether stale process records are due for pruning. The count down to
    /// the pruning goes on whatever there is to publish.
    pub fn iterate(&mut self, topo_energy: Option<&str>, processes: &[&Vec<ProcessRecord>]) -> (plan:
        Iteration)
        ensures
            plan.updates.deep_view() == planned_updates(
                old(self)@.base_path,
                topo_energy.deep_view(),
                processes.deep_view(),
            ),
            plan.cleanup == fires(old(self)@.timer),
            final(self)@ == (ExporterModel {
                timer: after_tick(old(self)@.timer),
                ..old(self)@
            }),
    {
        let mut updates: Vec<VmUpdate> = Vec::new();
        if let Some(energy) = topo_energy {
            let vms = ProxmoxExporter::filter_qemu_vm_processes(processes);
            let ghost groups = vms.deep_view();
            let ghost base = self@.base_path;
            let ghost plan = |group: Seq<RecordModel>| update_of(base, energy@, group);
            let mut at: usize = 0;
            while at < vms.len()
                invariant
                    at <= vms.len(),
                    groups == vms.deep_view(),
                    groups == classified(processes.deep_view()),
                    base == self@.base_path,
                    plan == |group: Seq<RecordModel>| update_of(base, energy@, group),
                    updates.deep_view() == groups.take(at as int).map_values(plan),
                decreases vms.len() - at,
            {
                proof {
                    processes.deep_view().lemma_filter_pred(
                        |group: Seq<RecordModel>| is_vm_group(group),
                        at as int,
                    );
                }
                updates.push(self.update_for(energy, &vms[at]));
                assert(groups.take(at + 1).map_values(plan) =~= groups.take(at as int).map_values(
                    plan,
                ).push(plan(groups[at as int])));
                at += 1;
            }
        }
        let cleanup = self.timer.tick();
        Iteration { updates, cleanup }
    }
}

} // verus!
