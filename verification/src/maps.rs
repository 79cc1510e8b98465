//! The traced process's memory map, as the kernel lists it in `/proc/<pid>/maps`.
use vstd::prelude::*;

verus! {

/// One mapping of the traced process: the addresses `start..end` show the file
/// `path` from byte `offset` on; `path` is `None` for a mapping that is not
/// backed by a file (heap, stack, anonymous memory, vDSO, ...).
pub struct MemoryRegion {
    pub start: u64,
    pub end: u64,
    pub offset: u64,
    pub path: Option<Vec<u8>>,
}

/// The bytes of a region's file path, where it has one.
pub open spec fn path_of(r: MemoryRegion) -> Option<Seq<u8>> {
    match r.path {
        Some(p) => Some(p@),
        None => None,
    }
}

} // verus!
