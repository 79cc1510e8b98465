//! Software breakpoints: the bytes saved where GDB sets a breakpoint, and the
//! translation of a virtual address of the traced process into the file and
//! file offset at which a uprobe is attached.
use vstd::prelude::*;

use std::collections::HashMap;

use crate::maps::{path_of, MemoryRegion};

verus! {

broadcast use vstd::std_specs::hash::group_hash_axioms;

/// The original bytes of the instructions that carry a software breakpoint,
/// by the breakpoint's address.
pub struct SavedBreakpoints {
    saved: HashMap<u64, u8>,
}

impl View for SavedBreakpoints {
    type V = Map<u64, u8>;

    closed spec fn view(&self) -> Map<u64, u8> {
        self.saved@
    }
}

impl SavedBreakpoints {
    /// No breakpoint saved.
    pub fn new() -> (r: Self)
        ensures
            r@ == Map::<u64, u8>::empty(),
    {
        SavedBreakpoints { saved: HashMap::new() }
    }

    /// Records `original_byte`, read from the traced process at `addr`, as the
    /// byte under the breakpoint at `addr` (replacing any earlier record), and
    /// reports the breakpoint as set.
    pub fn add_sw_breakpoint(&mut self, addr: u64, original_byte: u8) -> (r: bool)
        ensures
            r,
            final(self)@ == old(self)@.insert(addr, original_byte),
    {
        self.saved.insert(addr, original_byte);
        true
    }

    /// Reports the breakpoint at `addr` as removed; the saved bytes are kept.
    pub fn remove_sw_breakpoint(&mut self, addr: u64) -> (r: bool)
        ensures
            r,
            final(self)@ == old(self)@,
    {
        true
    }
}

/// Where a uprobe is attached: the mapped file and the offset in it.
pub struct ProbeLocation {
    pub path: Vec<u8>,
    pub offset: u64,
}

/// Why no uprobe can be attached at an address.
#[derive(PartialEq, Eq, Structural, Debug)]
pub enum ProbeError {
    /// The address lies in memory that no file backs (heap, stack, anonymous memory).
    NotFileBacked,
}

/// The region reaches over `vma`: it starts below `vma` and ends at or above it.
pub open spec fn covers(r: MemoryRegion, vma: u64) -> bool {
    r.start < vma && vma <= r.end
}

/// Region `i` is the first of `regions` that reaches over `vma`.
pub open spec fn is_first_cover(regions: Seq<MemoryRegion>, vma: u64, i: int) -> bool {
    &&& 0 <= i < regions.len()
    &&& covers(regions[i], vma)
    &&& forall|j: int| 0 <= j < i ==> !covers(#[trigger] regions[j], vma)
}

/// The file offset that `vma` stands for in region `r`.
pub open spec fn file_offset(r: MemoryRegion, vma: u64) -> int {
    vma - r.start + r.offset
}

/// Translates the address `vma` of the traced process into the file and file
/// offset of the first region that reaches over it; an address in memory that no
/// file backs is refused. Some region must reach over `vma`, and the file offset
/// must fit in 64 bits.
pub fn resolve_vma_to_probe_location(regions: &[MemoryRegion], vma: u64) -> (r: Result<
    ProbeLocation,
    ProbeError,
>)
    requires
        exists|i: int| 0 <= i < regions@.len() && covers(#[trigger] regions@[i], vma),
        forall|i: int|
            is_first_cover(regions@, vma, i) && path_of(regions@[i]) is Some ==> file_offset(
                regions@[i],
                vma,
            ) <= u64::MAX,
    ensures
        forall|i: int|
            is_first_cover(regions@, vma, i) ==> match path_of(regions@[i]) {
                Some(p) => r matches Ok(loc) && loc.path@ == p && loc.offset == file_offset(
                    regions@[i],
                    vma,
                ),
                None => r == Err::<ProbeLocation, ProbeError>(ProbeError::NotFileBacked),
            },
        forall|i: int|
            is_first_cover(regions@, vma, i) ==> (r matches Ok(loc) ==> loc.offset - regions@[i].offset
                == vma - regions@[i].start),
{
    let n = regions.len();
    let mut i: usize = 0;
    while i < n
        invariant
            n == regions@.len(),
            i <= n,
            forall|j: int| 0 <= j < i ==> !covers(#[trigger] regions@[j], vma),
            exists|k: int| 0 <= k < regions@.len() && covers(#[trigger] regions@[k], vma),
            forall|k: int|
                is_first_cover(regions@, vma, k) && path_of(regions@[k]) is Some ==> file_offset(
                    regions@[k],
                    vma,
                ) <= u64::MAX,
        decreases n - i,
    {
        let region = &regions[i];
        if vma <= region.start || vma > region.end {
            i = i + 1;
            continue;
        }
        assert(is_first_cover(regions@, vma, i as int));
        proof {
            assert forall|k: int| is_first_cover(regions@, vma, k) implies k == i by {
                if k < i {
                    assert(!covers(regions@[k], vma));
                } else if k > i {
                    assert(!covers(regions@[i as int], vma));
                }
            }
        }
        match &region.path {
            Some(p) => {
                let offset = vma - region.start + region.offset;
                return Ok(ProbeLocation { path: vstd::slice::slice_to_vec(p.as_slice()), offset });
            },
            None => {
                return Err(ProbeError::NotFileBacked);
            },
        }
    }
    proof {
        let k = choose|k: int| 0 <= k < regions@.len() && covers(#[trigger] regions@[k], vma);
        assert(!covers(regions@[k], vma));
    }
    Err(ProbeError::NotFileBacked)
}

/// A region reaches over the addresses above its start, up to and including its end.
pub proof fn lemma_covers_range(r: MemoryRegion, vma: u64)
    ensures
        covers(r, vma) <==> (r.start < vma && vma <= r.end),
        covers(r, vma) ==> vma - r.start >= 1,
{
}

/// The file offset of an address is its distance from the start of the mapping
/// plus the file offset at which the mapping begins.
pub proof fn lemma_file_offset_distance(r: MemoryRegion, vma: u64)
    ensures
        file_offset(r, vma) - r.offset == vma - r.start,
{
}

/// At most one region is the first to reach over an address, so the location that
/// an address resolves to is determined by the memory map.
pub proof fn lemma_first_cover_unique(regions: Seq<MemoryRegion>, vma: u64, i: int, j: int)
    requires
        is_first_cover(regions, vma, i),
        is_first_cover(regions, vma, j),
    ensures
        i == j,
{
    if i < j {
        assert(!covers(regions[i], vma));
    } else if j < i {
        assert(!covers(regions[j], vma));
    }
}

} // verus!
