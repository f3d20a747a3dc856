//! Where the counters live.
//!
//! Every virtual machine gets a directory of its own under the base
//! directory, named by its identity and laid out like a powercap zone, so that
//! a reader written for the real interface finds what it looks for:
//!
//! ```text
//! <base>/<identity>/intel-rapl:0:0/           empty, there for the reader's sake
//! <base>/<identity>/intel-rapl:0/energy_uj    the counter, in microjoules
//! ```

use vstd::prelude::*;
use vstd::string::*;

verus! {

/// The directory of the machine `identity` under `base`.
pub open spec fn vm_directory(base: Seq<char>, identity: Seq<char>) -> Seq<char> {
    base + "/"@ + identity
}

/// The directory that stands for the machine's first subzone.
pub open spec fn marker_directory(base: Seq<char>, identity: Seq<char>) -> Seq<char> {
    vm_directory(base, identity) + "/intel-rapl:0:0"@
}

/// The directory that stands for the machine's zone and holds its counter.
pub open spec fn counter_directory(base: Seq<char>, identity: Seq<char>) -> Seq<char> {
    vm_directory(base, identity) + "/intel-rapl:0"@
}

/// The file that holds the machine's counter.
pub open spec fn counter_file(base: Seq<char>, identity: Seq<char>) -> Seq<char> {
    counter_directory(base, identity) + "/energy_uj"@
}

/// The directory of the machine `identity` under `base`.
pub fn vm_directory_path(base: &str, identity: &str) -> (path: String)
    ensures
        path@ == vm_directory(base@, identity@),
{
    let mut path = String::from_str(base);
    path.append("/");
    path.append(identity);
    path
}

/// The directory that stands for the machine's first subzone.
pub fn marker_directory_path(base: &str, identity: &str) -> (path: String)
    ensures
        path@ == marker_directory(base@, identity@),
{
    let mut path = vm_directory_path(base, identity);
    path.append("/intel-rapl:0:0");
    path
}

/// The directory that stands for the machine's zone and holds its counter.
pub fn counter_directory_path(base: &str, identity: &str) -> (path: String)
    ensures
        path@ == counter_directory(base@, identity@),
{
    let mut path = vm_directory_path(base, identity);
    path.append("/intel-rapl:0");
    path
}

/// The file that holds the machine's counter.
pub fn counter_file_path(base: &str, identity: &str) -> (path: String)
    ensures
        path@ == counter_file(base@, identity@),
{
    let mut path = counter_directory_path(base, identity);
    path.append("/energy_uj");
    path
}

} // verus!
