//! Attribution of host power draw to virtual machines.
//!
//! A host samples its own energy use once per interval. This library shares
//! each sample out to the QEMU/KVM guests running on the host, in proportion
//! to the CPU time each hypervisor process used, and keeps one accumulating
//! microjoule counter per guest in a directory tree laid out like the powercap
//! sysfs interface, so that a guest can read its own consumption from files.
//!
//! Everything here is pure: the caller samples the host, reads and writes the
//! files, and sleeps between iterations.

pub mod allocation;
pub mod classifier;
pub mod counter;
pub mod exporter;
pub mod identity;
pub mod layout;
pub mod number;
pub mod process;
pub mod publish;
pub mod schedule;
pub mod text;

pub use allocation::Decimal;
pub use exporter::ProxmoxExporter;
pub use process::ProcessRecord;
pub use publish::{Allocation, Failure, Iteration, VmUpdate};
pub use schedule::{CleanupTimer, CLEANUP_PERIOD};
