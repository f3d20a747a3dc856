//! Process observations, as handed over by whatever tracks the host's processes.

use vstd::prelude::*;

verus! {

/// One observation of a process at a point in time.
#[derive(Debug)]
pub struct ProcessRecord {
    /// Identifier of the observed process.
    pub pid: i32,
    /// Command line of the process, one argument per element.
    pub cmdline: Vec<String>,
    /// Share of host CPU time the process used over the last interval, as a
    /// percentage in decimal text, where the tracker could compute one.
    pub cpu_usage: Option<String>,
}

/// What a [`ProcessRecord`] holds, as mathematical values.
pub ghost struct RecordModel {
    pub pid: int,
    pub cmdline: Seq<Seq<char>>,
    pub cpu_usage: Option<Seq<char>>,
}

impl View for ProcessRecord {
    type V = RecordModel;

    open spec fn view(&self) -> RecordModel {
        RecordModel {
            pid: self.pid as int,
            cmdline: self.cmdline.deep_view(),
            cpu_usage: self.cpu_usage.deep_view(),
        }
    }
}

impl DeepView for ProcessRecord {
    type V = RecordModel;

    open spec fn deep_view(&self) -> RecordModel {
        self@
    }
}

/// Copies a command line, argument by argument.
pub fn copy_cmdline(cmdline: &Vec<String>) -> (copy: Vec<String>)
    ensures
        copy.deep_view() == cmdline.deep_view(),
{
    let mut copy: Vec<String> = Vec::new();
    let mut i: usize = 0;
    while i < cmdline.len()
        invariant
            i <= cmdline.len(),
            copy.len() == i,
            forall|k: int| 0 <= k < i ==> copy[k]@ == cmdline[k]@,
        decreases cmdline.len() - i,
    {
        copy.push(cmdline[i].clone());
        i += 1;
    }
    copy
}

impl ProcessRecord {
    /// An independent copy of this record.
    pub fn duplicate(&self) -> (copy: ProcessRecord)
        ensures
            copy@ == self@,
    {
        let cpu_usage = match &self.cpu_usage {
            Some(text) => Some(text.clone()),
            None => None,
        };
        ProcessRecord { pid: self.pid, cmdline: copy_cmdline(&self.cmdline), cpu_usage }
    }
}

/// Copies a group of records, keeping their order.
pub fn copy_group(group: &Vec<ProcessRecord>) -> (copy: Vec<ProcessRecord>)
    ensures
        copy.deep_view() == group.deep_view(),
{
    let mut copy: Vec<ProcessRecord> = Vec::new();
    let mut i: usize = 0;
    while i < group.len()
        invariant
            i <= group.len(),
            copy.len() == i,
            forall|k: int| 0 <= k < i ==> copy[k]@ == group[k]@,
        decreases group.len() - i,
    {
        copy.push(group[i].duplicate());
        i += 1;
    }
    copy
}

} // verus!
