//! The arithmetic side of the kernel page tables: where the direct mapping
//! puts physical memory, and which entries carry the memory-encryption bit.
use vstd::prelude::*;

use crate::frame::{FrameRange, PhysFrame, FRAME_SIZE};
use crate::virtual_address_allocator::{Page, PageRange, MAX_PAGE_NUMBER};

verus! {

/// The mapping of the first `frames` physical frames to consecutive large
/// pages, starting at page `base_page`.
#[derive(Clone, Copy, Debug, PartialEq, Eq, Structural)]
pub struct DirectMap {
    pub base_page: u64,
    pub frames: u64,
}

impl DirectMap {
    pub open spec fn wf(self) -> bool {
        self.base_page + self.frames < MAX_PAGE_NUMBER
    }

    /// Base virtual address of the mapping.
    pub open spec fn spec_offset(self) -> int {
        self.base_page * FRAME_SIZE
    }

    /// The virtual address at which physical address `addr` is mapped.
    pub open spec fn spec_phys_to_virt(self, addr: int) -> Option<int> {
        if 0 <= addr < self.frames * FRAME_SIZE {
            Some(self.spec_offset() + addr)
        } else {
            None
        }
    }

    /// The physical address that virtual address `addr` maps.
    pub open spec fn spec_virt_to_phys(self, addr: int) -> Option<int> {
        if self.spec_offset() <= addr < self.spec_offset() + self.frames * FRAME_SIZE {
            Some(addr - self.spec_offset())
        } else {
            None
        }
    }

    proof fn lemma_bounds(self)
        requires
            self.wf(),
        ensures
            self.spec_offset() + self.frames * FRAME_SIZE < 0x1_0000_0000_0000_0000,
            self.spec_offset() >= 0,
            self.frames * FRAME_SIZE >= 0,
    {
        assert(self.base_page * 0x20_0000 + self.frames * 0x20_0000 < 0x1_0000_0000_0000_0000)
            by (nonlinear_arith)
            requires
                self.base_page + self.frames < MAX_PAGE_NUMBER,
        ;
        assert(self.base_page * 0x20_0000 >= 0) by (nonlinear_arith);
        assert(self.frames * 0x20_0000 >= 0) by (nonlinear_arith);
    }

    /// The virtual address at which physical address `addr` is mapped;
    /// `None` when the mapping does not cover it.
    pub fn translate_physical(&self, addr: u64) -> (r: Option<u64>)
        requires
            self.wf(),
        ensures
            r matches Some(v) ==> self.spec_phys_to_virt(addr as int) == Some(v as int),
            r is None ==> self.spec_phys_to_virt(addr as int) is None,
    {
        proof {
            self.lemma_bounds();
        }
        let size = self.frames * FRAME_SIZE;
        if addr < size {
            Some(self.base_page * FRAME_SIZE + addr)
        } else {
            None
        }
    }

    /// The physical address that virtual address `addr` maps; `None` when it
    /// lies outside the mapping.
    pub fn translate_virtual(&self, addr: u64) -> (r: Option<u64>)
        requires
            self.wf(),
        ensures
            r matches Some(p) ==> self.spec_virt_to_phys(addr as int) == Some(p as int),
            r is None ==> self.spec_virt_to_phys(addr as int) is None,
    {
        proof {
            self.lemma_bounds();
        }
        let offset = self.base_page * FRAME_SIZE;
        let size = self.frames * FRAME_SIZE;
        if offset <= addr && addr - offset < size {
            Some(addr - offset)
        } else {
            None
        }
    }

    /// The page at which `frame` is mapped; `None` when the mapping does not
    /// cover it.
    pub fn translate_physical_frame(&self, frame: PhysFrame) -> (r: Option<Page>)
        requires
            self.wf(),
        ensures
            r matches Some(p) ==> frame.number < self.frames && p.number == self.base_page
                + frame.number && p.wf(),
            r is None <==> frame.number >= self.frames,
    {
        if frame.number < self.frames {
            Some(Page { number: self.base_page + frame.number })
        } else {
            None
        }
    }

    /// The pages at which the frames of `range` are mapped; `None` when the
    /// mapping does not cover them all.
    pub fn translate_frame_range(&self, range: FrameRange) -> (r: Option<PageRange>)
        requires
            self.wf(),
            range.wf(),
        ensures
            r matches Some(p) ==> p.wf() && p.start == self.base_page + range.start && p.end
                == self.base_page + range.end,
            r is None <==> range.end > self.frames,
    {
        if range.end <= self.frames {
            Some(PageRange { start: self.base_page + range.start, end: self.base_page + range.end })
        } else {
            None
        }
    }
}

/// Reaching a physical address through the direct mapping and translating
/// back gives the same physical address: a structure found at a physical
/// address before the switch to the kernel's page tables is read, after it,
/// from the very same bytes. Distinct physical addresses map to distinct
/// virtual ones.
pub proof fn lemma_direct_map_round_trip(m: DirectMap, a: int, b: int)
    requires
        m.wf(),
        m.spec_phys_to_virt(a) is Some,
    ensures
        m.spec_virt_to_phys(m.spec_phys_to_virt(a)->Some_0) == Some(a),
        m.spec_phys_to_virt(b) is Some && a != b ==> m.spec_phys_to_virt(a) != m.spec_phys_to_virt(
            b,
        ),
{
}

/// What memory an entry maps.
#[derive(Clone, Copy, Debug, PartialEq, Eq, Structural)]
pub enum MemoryUse {
    /// Memory private to the guest: encrypted.
    Private,
    /// Memory the hypervisor must read: never encrypted.
    SharedWithHost,
}

/// The flags of a page-table entry for memory of the given use: `flags` with
/// the encryption bits `encrypted_mask` set for private memory and cleared
/// for memory shared with the host; no other bit changes.
pub fn entry_flags(flags: u64, encrypted_mask: u64, usage: MemoryUse) -> (r: u64)
    ensures
        usage == MemoryUse::Private ==> r & encrypted_mask == encrypted_mask,
        usage == MemoryUse::SharedWithHost ==> r & encrypted_mask == 0,
        r & !encrypted_mask == flags & !encrypted_mask,
{
    match usage {
        MemoryUse::Private => {
            let r = flags | encrypted_mask;
            assert(r & encrypted_mask == encrypted_mask && r & !encrypted_mask == flags
                & !encrypted_mask) by (bit_vector)
                requires
                    r == flags | encrypted_mask,
            ;
            r
        },
        MemoryUse::SharedWithHost => {
            let r = flags & !encrypted_mask;
            assert(r & encrypted_mask == 0 && r & !encrypted_mask == flags & !encrypted_mask)
                by (bit_vector)
                requires
                    r == flags & !encrypted_mask,
            ;
            r
        },
    }
}

} // verus!
