//! Telling the hypervisor processes apart from everything else on the host.
//!
//! A process is tracked as a group of records, the newest first. A group
//! stands for a virtual machine when the newest command line names a QEMU or
//! KVM binary in one of its arguments and the group has enough history for
//! the tracker's CPU share to mean something.

use vstd::prelude::*;
use crate::exporter::ProxmoxExporter;
use crate::process::{copy_group, ProcessRecord, RecordModel};
use crate::text::{chars_of, contains, has_substring};

verus! {

/// Records a group needs before energy is attributed to it.
pub const MIN_HISTORY: usize = 3;

/// What an argument that starts a QEMU system emulator holds.
pub open spec fn qemu_signature() -> Seq<char> {
    "qemu-system"@
}

/// What an argument that starts KVM holds.
pub open spec fn kvm_signature() -> Seq<char> {
    "/usr/bin/kvm"@
}

/// Whether `token` holds one of the two signatures.
pub open spec fn names_hypervisor(token: Seq<char>) -> bool {
    has_substring(token, qemu_signature()) || has_substring(token, kvm_signature())
}

/// Whether some argument of `cmdline` holds one of the two signatures.
pub open spec fn is_hypervisor_cmdline(cmdline: Seq<Seq<char>>) -> bool {
    exists|at: int| 0 <= at < cmdline.len() && names_hypervisor(#[trigger] cmdline[at])
}

/// Whether `group` stands for a virtual machine: its newest record shows a
/// hypervisor's command line, and it holds at least [`MIN_HISTORY`] records.
pub open spec fn is_vm_group(group: Seq<RecordModel>) -> bool {
    group.len() >= MIN_HISTORY && is_hypervisor_cmdline(group[0].cmdline)
}

/// The groups among `groups` that stand for virtual machines, in their order.
pub open spec fn classified(groups: Seq<Seq<RecordModel>>) -> Seq<Seq<RecordModel>> {
    groups.filter(|group: Seq<RecordModel>| is_vm_group(group))
}

/// A group is classified exactly when it is one of the groups given and
/// stands for a virtual machine.
pub proof fn lemma_classified_membership(groups: Seq<Seq<RecordModel>>, group: Seq<RecordModel>)
    ensures
        classified(groups).contains(group) <==> groups.contains(group) && is_vm_group(group),
{
    let pred = |group: Seq<RecordModel>| is_vm_group(group);
    if classified(groups).contains(group) {
        let at = choose|at: int|
            0 <= at < classified(groups).len() && classified(groups)[at] == group;
        groups.lemma_filter_pred(pred, at);
        groups.lemma_filter_contains_rev(pred, group);
    }
    if groups.contains(group) && is_vm_group(group) {
        let at = choose|at: int| 0 <= at < groups.len() && groups[at] == group;
        groups.lemma_filter_contains(pred, at);
    }
}

/// Classifying what has been classified changes nothing.
pub proof fn lemma_classified_idempotent(groups: Seq<Seq<RecordModel>>)
    ensures
        classified(classified(groups)) == classified(groups),
{
    let pred = |group: Seq<RecordModel>| is_vm_group(group);
    let kept = classified(groups);
    lemma_filter_keeps_all(kept, pred);
}

/// A filter keeps a sequence whole when every element passes.
proof fn lemma_filter_keeps_all(
    groups: Seq<Seq<RecordModel>>,
    pred: spec_fn(Seq<RecordModel>) -> bool,
)
    requires
        forall|at: int| 0 <= at < groups.len() ==> pred(#[trigger] groups[at]),
    ensures
        groups.filter(pred) == groups,
    decreases groups.len(),
{
    reveal(Seq::filter);
    if groups.len() > 0 {
        lemma_filter_keeps_all(groups.drop_last(), pred);
    }
}

/// A group whose newest command line holds neither signature is never
/// classified, however long its history.
pub proof fn lemma_unsigned_group_excluded(
    groups: Seq<Seq<RecordModel>>,
    group: Seq<RecordModel>,
)
    requires
        group.len() > 0 ==> !is_hypervisor_cmdline(group[0].cmdline),
    ensures
        !classified(groups).contains(group),
{
    lemma_classified_membership(groups, group);
}

/// A group with fewer than [`MIN_HISTORY`] records is never classified,
/// whatever its command line.
pub proof fn lemma_short_history_excluded(groups: Seq<Seq<RecordModel>>, group: Seq<RecordModel>)
    requires
        group.len() < MIN_HISTORY,
    ensures
        !classified(groups).contains(group),
{
    lemma_classified_membership(groups, group);
}

/// Whether some argument of `cmdline` holds one of the two signatures.
pub fn mentions_hypervisor(cmdline: &[String]) -> (found: bool)
    ensures
        found == is_hypervisor_cmdline(cmdline.deep_view()),
{
    let qemu = chars_of("qemu-system");
    let kvm = chars_of("/usr/bin/kvm");
    let ghost tokens = cmdline.deep_view();
    let mut at: usize = 0;
    while at < cmdline.len()
        invariant
            at <= cmdline.len(),
            tokens == cmdline.deep_view(),
            qemu@ == qemu_signature(),
            kvm@ == kvm_signature(),
            forall|k: int| 0 <= k < at ==> !names_hypervisor(#[trigger] tokens[k]),
        decreases cmdline.len() - at,
    {
        let token = chars_of(cmdline[at].as_str());
        assert(tokens[at as int] == token@);
        if contains(token.as_slice(), qemu.as_slice()) || contains(
            token.as_slice(),
            kvm.as_slice(),
        ) {
            return true;
        }
        at += 1;
    }
    false
}

/// Whether `group` stands for a virtual machine.
pub fn is_vm(group: &Vec<ProcessRecord>) -> (vm: bool)
    ensures
        vm == is_vm_group(group.deep_view()),
{
    group.len() >= MIN_HISTORY && mentions_hypervisor(group[0].cmdline.as_slice())
}

impl ProxmoxExporter {
    /// The groups among `processes` that stand for virtual machines, in
    /// their order.
    pub fn filter_qemu_vm_processes(processes: &[&Vec<ProcessRecord>]) -> (vms: Vec<
        Vec<ProcessRecord>,
    >)
        ensures
            vms.deep_view() == classified(processes.deep_view()),
    {
        let ghost groups = processes.deep_view();
        let ghost pred = |group: Seq<RecordModel>| is_vm_group(group);
        let mut vms: Vec<Vec<ProcessRecord>> = Vec::new();
        let mut at: usize = 0;
        while at < processes.len()
            invariant
                at <= processes.len(),
                groups == processes.deep_view(),
                pred == |group: Seq<RecordModel>| is_vm_group(group),
                vms.deep_view() == groups.take(at as int).filter(pred),
            decreases processes.len() - at,
        {
            let group: &Vec<ProcessRecord> = processes[at];
            proof {
                assert(groups.take(at + 1) =~= groups.take(at as int).push(groups[at as int]));
                groups.take(at as int).lemma_filter_push(groups[at as int], pred);
            }
            if is_vm(group) {
                vms.push(copy_group(group));
            }
            at += 1;
        }
        assert(groups.take(at as int) =~= groups);
        vms
    }
}

} // verus!
