//! Allocator of long-lived kernel virtual address space, in large pages.
//!
//! Space is handed out from a fixed window by a cursor that only moves
//! forward: nothing is ever given back, and no two allocations overlap.
use vstd::prelude::*;

verus! {

/// Size of a large page: 2 MiB.
pub const LARGE_PAGE_SIZE: u64 = 0x20_0000;

/// Page numbers stay below this bound, so that every page start fits in 64
/// bits.
pub const MAX_PAGE_NUMBER: u64 = 0x800_0000_0000;

/// First page of the kernel's long-lived mapping window (address
/// `0xFFFF_C900_0000_0000`).
pub const KERNEL_WINDOW_START: u64 = 0x7ff_fe48_0000;

/// Page just past the kernel's window (address `0xFFFF_E900_0000_0000`): the
/// window spans 32 TiB.
pub const KERNEL_WINDOW_END: u64 = 0x7ff_ff48_0000;

/// Pages reserved for the kernel heap: 1 TiB.
pub const KERNEL_HEAP_PAGES: u64 = 0x8_0000;

/// A large page of virtual memory, starting at `number * LARGE_PAGE_SIZE`.
#[derive(Clone, Copy, Debug, PartialEq, Eq, Structural)]
pub struct Page {
    pub number: u64,
}

impl Page {
    pub open spec fn wf(self) -> bool {
        self.number < MAX_PAGE_NUMBER
    }

    /// Virtual address of the first byte of the page.
    pub fn start_address(&self) -> (r: u64)
        requires
            self.wf(),
        ensures
            r == self.number * LARGE_PAGE_SIZE,
    {
        assert(self.number * LARGE_PAGE_SIZE < 0x1_0000_0000_0000_0000) by (nonlinear_arith)
            requires
                self.number < MAX_PAGE_NUMBER,
        ;
        self.number * LARGE_PAGE_SIZE
    }
}

/// The pages from `start` (included) to `end` (excluded).
#[derive(Clone, Copy, Debug, PartialEq, Eq, Structural)]
pub struct PageRange {
    pub start: u64,
    pub end: u64,
}

impl PageRange {
    pub open spec fn wf(self) -> bool {
        self.start <= self.end <= MAX_PAGE_NUMBER
    }

    pub open spec fn spec_len(self) -> int {
        self.end - self.start
    }

    /// Whether page `p` lies in the range.
    pub open spec fn contains(self, p: int) -> bool {
        self.start <= p < self.end
    }

    /// Number of pages in the range.
    pub fn len(&self) -> (r: u64)
        requires
            self.wf(),
        ensures
            r == self.spec_len(),
    {
        self.end - self.start
    }
}

/// What allocating `n` pages from the free window `w` returns.
pub open spec fn va_alloc(w: PageRange, n: u64) -> Option<PageRange> {
    if n <= w.end - w.start {
        Some(PageRange { start: w.start, end: (w.start + n) as u64 })
    } else {
        None
    }
}

/// The free window after allocating `n` pages from `w`.
pub open spec fn va_after(w: PageRange, n: u64) -> PageRange {
    if n <= w.end - w.start {
        PageRange { start: (w.start + n) as u64, end: w.end }
    } else {
        w
    }
}

/// What a run of allocations of the given sizes returns, one result per size.
pub open spec fn va_results(w: PageRange, sizes: Seq<u64>) -> Seq<Option<PageRange>>
    decreases sizes.len(),
{
    if sizes.len() == 0 {
        seq![]
    } else {
        seq![va_alloc(w, sizes[0])] + va_results(va_after(w, sizes[0]), sizes.drop_first())
    }
}

/// Every range that a run of allocations returns lies inside the window it
/// started from, and a range returned later starts where an earlier one ended
/// or after: no two of them share a page, whatever the sizes asked for.
pub proof fn lemma_allocations_never_overlap(w: PageRange, sizes: Seq<u64>)
    requires
        w.wf(),
    ensures
        va_results(w, sizes).len() == sizes.len(),
        forall|i: int|
            0 <= i < sizes.len() ==> (#[trigger] va_results(w, sizes)[i] matches Some(r) ==> r.wf()
                && w.start <= r.start && r.end <= w.end && r.spec_len() == sizes[i]),
        forall|i: int, j: int|
            0 <= i < j < sizes.len() ==> (#[trigger] va_results(w, sizes)[i] matches Some(a) ==> (
            #[trigger] va_results(w, sizes)[j] matches Some(b) ==> a.end <= b.start)),
    decreases sizes.len(),
{
    if sizes.len() > 0 {
        let w2 = va_after(w, sizes[0]);
        let rest = sizes.drop_first();
        lemma_allocations_never_overlap(w2, rest);
        let rs = va_results(w, sizes);
        assert(rs == seq![va_alloc(w, sizes[0])] + va_results(w2, rest));
        assert forall|i: int| 0 <= i < sizes.len() implies (#[trigger] rs[i] matches Some(r) ==> r.wf()
            && w.start <= r.start && r.end <= w.end && r.spec_len() == sizes[i]) by {
            if i > 0 {
                assert(rs[i] == va_results(w2, rest)[i - 1]);
                assert(rest[i - 1] == sizes[i]);
            }
        }
        assert forall|i: int, j: int|
            0 <= i < j < sizes.len() implies (#[trigger] rs[i] matches Some(a) ==> (
            #[trigger] rs[j] matches Some(b) ==> a.end <= b.start)) by {
            assert(rs[j] == va_results(w2, rest)[j - 1]);
            if i > 0 {
                assert(rs[i] == va_results(w2, rest)[i - 1]);
            }
        }
    }
}

/// Hands out contiguous runs of large pages from a fixed window.
pub struct VirtualAddressAllocator {
    next: u64,
    end: u64,
}

impl View for VirtualAddressAllocator {
    type V = PageRange;

    /// The part of the window not yet handed out.
    closed spec fn view(&self) -> PageRange {
        PageRange { start: self.next, end: self.end }
    }
}

impl VirtualAddressAllocator {
    pub open spec fn wf(&self) -> bool {
        self@.wf()
    }

    /// An allocator over the pages of `window`.
    pub fn new(window: PageRange) -> (r: VirtualAddressAllocator)
        requires
            window.wf(),
        ensures
            r.wf(),
            r@ == window,
    {
        VirtualAddressAllocator { next: window.start, end: window.end }
    }

    /// An allocator over the kernel's 32 TiB window of long-lived mappings.
    pub fn kernel_window() -> (r: VirtualAddressAllocator)
        ensures
            r.wf(),
            r@ == (PageRange { start: KERNEL_WINDOW_START, end: KERNEL_WINDOW_END }),
    {
        VirtualAddressAllocator::new(PageRange { start: KERNEL_WINDOW_START, end: KERNEL_WINDOW_END })
    }

    /// Number of pages still free.
    pub fn remaining(&self) -> (r: u64)
        requires
            self.wf(),
        ensures
            r == self@.spec_len(),
    {
        self.end - self.next
    }

    /// Hands out the next `n` pages of the window; `None`, with nothing
    /// changed, when fewer than `n` remain.
    pub fn allocate(&mut self, n: u64) -> (r: Option<PageRange>)
        requires
            old(self).wf(),
        ensures
            final(self).wf(),
            r == va_alloc(old(self)@, n),
            final(self)@ == va_after(old(self)@, n),
            r is None <==> n > old(self)@.spec_len(),
            r matches Some(p) ==> p.wf() && p.spec_len() == n && p.start == old(self)@.start
                && final(self)@.start == p.end && final(self)@.end == old(self)@.end,
    {
        if n <= self.end - self.next {
            let start = self.next;
            self.next = self.next + n;
            Some(PageRange { start, end: start + n })
        } else {
            None
        }
    }
}

} // verus!
