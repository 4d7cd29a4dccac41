//! Typed event records handed in by the kernel-mode collector.

use vstd::prelude::*;

verus! {

/// The kind of a file-system or process event.
#[derive(Clone, Copy, Debug, PartialEq, Eq, Structural)]
pub enum EventType {
    FileCreate,
    FileRead,
    FileWrite,
    FileRename,
    FileDelete,
    DirectoryEnum,
    VSSDelete,
    ProcessCreate,
    RegistryChange,
}

/// One event from the kernel collector: the unit of input of the pipeline.
#[derive(Clone, Debug)]
pub struct FileEvent {
    pub event_type: EventType,
    pub process_id: u32,
    pub process_path: String,
    pub file_path: String,
    pub bytes_read: u64,
    pub bytes_written: u64,
    /// Unix seconds; monotone per source, not ordered between sources.
    pub timestamp: i64,
    /// A truncated head of the write payload; may be empty.
    pub entropy_preview: Vec<u8>,
}

impl FileEvent {
    /// Schema invariant: the process id of a real process is never zero.
    pub open spec fn wf(&self) -> bool {
        self.process_id != 0
    }

    /// Checks the schema invariant; a malformed event is dropped upstream.
    pub fn is_well_formed(&self) -> (r: bool)
        ensures
            r == self.wf(),
    {
        self.process_id != 0
    }
}

} // verus!
