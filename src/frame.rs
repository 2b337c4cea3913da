use vstd::prelude::*;

verus! {

/// Size of a physical frame: one large (2 MiB) page.
pub const FRAME_SIZE: u64 = 0x20_0000;

/// Frame numbers stay below this bound, so that every frame lies under the
/// 52-bit physical address limit of the architecture.
pub const MAX_FRAME_NUMBER: u64 = 0x8000_0000;

/// A physical memory frame, identified by its frame number: the frame starts
/// at physical address `number * FRAME_SIZE`.
#[derive(Clone, Copy, Debug, PartialEq, Eq, Structural)]
pub struct PhysFrame {
    pub number: u64,
}

impl PhysFrame {
    pub open spec fn wf(self) -> bool {
        self.number < MAX_FRAME_NUMBER
    }

    /// The frame that starts at `addr`, if `addr` is frame-aligned and below
    /// the physical address limit.
    pub fn from_start_address(addr: u64) -> (r: Option<PhysFrame>)
        ensures
            r matches Some(f) <==> (addr % FRAME_SIZE == 0 && addr / FRAME_SIZE
                < MAX_FRAME_NUMBER),
            r matches Some(f) ==> f.wf() && f.number * FRAME_SIZE == addr,
    {
        if addr % FRAME_SIZE == 0 && addr / FRAME_SIZE < MAX_FRAME_NUMBER {
            Some(PhysFrame { number: addr / FRAME_SIZE })
        } else {
            None
        }
    }

    /// Physical address of the first byte of the frame.
    pub fn start_address(&self) -> (r: u64)
        requires
            self.wf(),
        ensures
            r == self.number * FRAME_SIZE,
            r % FRAME_SIZE == 0,
    {
        proof {
            assert(self.number * FRAME_SIZE < 0x10_0000_0000_0000) by (nonlinear_arith)
                requires
                    self.number < MAX_FRAME_NUMBER,
            ;
            assert(((self.number as int) * 0x20_0000) % 0x20_0000 == 0) by (nonlinear_arith);
        }
        self.number * FRAME_SIZE
    }
}

/// A run of consecutive frames, from `start` (included) to `end` (excluded).
#[derive(Clone, Copy, Debug, PartialEq, Eq, Structural)]
pub struct FrameRange {
    pub start: u64,
    pub end: u64,
}

impl FrameRange {
    pub open spec fn wf(self) -> bool {
        self.start <= self.end <= MAX_FRAME_NUMBER
    }

    /// Number of frames in the range.
    pub open spec fn spec_len(self) -> int {
        self.end - self.start
    }

    /// Whether the frame numbered `f` lies in the range.
    pub open spec fn contains(self, f: int) -> bool {
        self.start <= f < self.end
    }

    pub fn len(&self) -> (r: u64)
        requires
            self.wf(),
        ensures
            r == self.spec_len(),
    {
        self.end - self.start
    }

    /// The `i`-th frame of the range.
    pub fn nth(&self, i: u64) -> (r: PhysFrame)
        requires
            self.wf(),
            i < self.spec_len(),
        ensures
            r.wf(),
            r.number == self.start + i,
            self.contains(r.number as int),
    {
        PhysFrame { number: self.start + i }
    }

    /// All frames of the range, in ascending order.
    pub fn frames(&self) -> (r: Vec<PhysFrame>)
        requires
            self.wf(),
        ensures
            r@.len() == self.spec_len(),
            forall|i: int| 0 <= i < r@.len() ==> #[trigger] r@[i].number == self.start + i,
    {
        let mut v: Vec<PhysFrame> = Vec::new();
        let mut n: u64 = self.start;
        while n < self.end
            invariant
                self.wf(),
                self.start <= n <= self.end,
                v@.len() == n - self.start,
                forall|i: int| 0 <= i < v@.len() ==> #[trigger] v@[i].number == self.start + i,
            decreases self.end - n,
        {
            v.push(PhysFrame { number: n });
            n = n + 1;
        }
        v
    }
}

} // verus!
