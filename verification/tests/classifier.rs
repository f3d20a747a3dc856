use proxmox_exporter::classifier::{is_vm, mentions_hypervisor, MIN_HISTORY};
use proxmox_exporter::process::{copy_cmdline, copy_group};
use proxmox_exporter::{ProcessRecord, ProxmoxExporter};

fn record(pid: i32, args: &[&str]) -> ProcessRecord {
    ProcessRecord {
        pid,
        cmdline: args.iter().map(|arg| arg.to_string()).collect(),
        cpu_usage: None,
    }
}

fn group(pid: i32, args: &[&str], len: usize) -> Vec<ProcessRecord> {
    (0..len).map(|_| record(pid, args)).collect()
}

fn pids(groups: &[Vec<ProcessRecord>]) -> Vec<i32> {
    groups.iter().map(|group| group[0].pid).collect()
}

const QEMU: [&str; 5] = ["/usr/bin/qemu-system-x86_64", "-id", "100", "-name", "web"];
const KVM: [&str; 5] = ["/usr/bin/kvm", "-id", "101", "-name", "db"];
const SHELL: [&str; 2] = ["/bin/bash", "-l"];

#[test]
fn classifier_keeps_qemu_and_kvm_in_order() {
    let a = group(1, &SHELL, 5);
    let b = group(2, &KVM, 3);
    let c = group(3, &SHELL, 3);
    let d = group(4, &QEMU, 4);
    let vms = ProxmoxExporter::filter_qemu_vm_processes(&[&a, &b, &c, &d]);
    assert_eq!(pids(&vms), vec![2, 4]);
    assert_eq!(vms[0].len(), 3);
    assert_eq!(vms[1].len(), 4);
    assert_eq!(vms[1][0].cmdline, QEMU.to_vec());
}

#[test]
fn classifier_leaves_out_groups_without_a_signature() {
    for len in [1, 2, 3, 10, 100] {
        let other = group(1, &SHELL, len);
        assert!(ProxmoxExporter::filter_qemu_vm_processes(&[&other]).is_empty());
    }
}

#[test]
fn classifier_leaves_out_short_histories() {
    for len in [0, 1, 2] {
        let young = group(1, &QEMU, len);
        assert!(ProxmoxExporter::filter_qemu_vm_processes(&[&young]).is_empty());
    }
    let grown = group(1, &QEMU, MIN_HISTORY);
    assert_eq!(ProxmoxExporter::filter_qemu_vm_processes(&[&grown]).len(), 1);
}

#[test]
fn classifier_min_history_is_three() {
    assert_eq!(MIN_HISTORY, 3);
}

#[test]
fn classifier_looks_at_the_newest_record_only() {
    let mut was_vm = group(1, &QEMU, 3);
    was_vm[0] = record(1, &SHELL);
    assert!(ProxmoxExporter::filter_qemu_vm_processes(&[&was_vm]).is_empty());
    let mut is_vm_now = group(2, &SHELL, 3);
    is_vm_now[0] = record(2, &KVM);
    assert_eq!(pids(&ProxmoxExporter::filter_qemu_vm_processes(&[&is_vm_now])), vec![2]);
}

#[test]
fn classifier_of_nothing_is_nothing() {
    assert!(ProxmoxExporter::filter_qemu_vm_processes(&[]).is_empty());
}

#[test]
fn classifier_copies_records_whole() {
    let mut vm = group(9, &KVM, 3);
    vm[0].cpu_usage = Some("12.5".to_string());
    let vms = ProxmoxExporter::filter_qemu_vm_processes(&[&vm]);
    assert_eq!(vms[0][0].pid, 9);
    assert_eq!(vms[0][0].cpu_usage.as_deref(), Some("12.5"));
    assert_eq!(vms[0][1].cpu_usage, None);
    assert_eq!(vms[0][2].cmdline, KVM.to_vec());
}

#[test]
fn signature_may_stand_anywhere_in_any_argument() {
    let args = |args: &[&str]| -> Vec<String> { args.iter().map(|a| a.to_string()).collect() };
    assert!(mentions_hypervisor(&args(&["qemu-system"])));
    assert!(mentions_hypervisor(&args(&["sudo", "/opt/bin/qemu-system-aarch64"])));
    assert!(mentions_hypervisor(&args(&["sh", "-c", "exec /usr/bin/kvm -id 1"])));
    assert!(mentions_hypervisor(&args(&["/usr/bin/kvm"])));
    assert!(!mentions_hypervisor(&args(&["qemu-syste", "m"])));
    assert!(!mentions_hypervisor(&args(&["/usr/bin/kv"])));
    assert!(!mentions_hypervisor(&args(&["kvm"])));
    assert!(!mentions_hypervisor(&args(&["qemu-img", "/usr/bin/qemu-nbd"])));
    assert!(!mentions_hypervisor(&args(&["QEMU-SYSTEM"])));
    assert!(!mentions_hypervisor(&args(&[""])));
    assert!(!mentions_hypervisor(&args(&[])));
}

#[test]
fn is_vm_wants_signature_and_history() {
    assert!(is_vm(&group(1, &QEMU, 3)));
    assert!(!is_vm(&group(1, &QEMU, 2)));
    assert!(!is_vm(&group(1, &SHELL, 3)));
    assert!(!is_vm(&group(1, &QEMU, 0)));
}

#[test]
fn copies_are_equal_and_independent() {
    let first = group(3, &KVM, 2);
    let mut copy = copy_group(&first);
    assert_eq!(copy.len(), 2);
    assert_eq!(copy[1].cmdline, first[1].cmdline);
    copy[1].cmdline.clear();
    assert_eq!(first[1].cmdline, KVM.to_vec());
    assert_eq!(copy_cmdline(&first[0].cmdline), KVM.to_vec());
    let one = first[0].duplicate();
    assert_eq!(one.pid, 3);
    assert_eq!(one.cmdline, KVM.to_vec());
    assert_eq!(one.cpu_usage, None);
}
