//! Physical frame allocator: tracks the free physical memory as a bounded
//! list of pairwise-disjoint frame ranges and hands out contiguous runs.
use vstd::prelude::*;

use crate::frame::{FrameRange, PhysFrame, FRAME_SIZE, MAX_FRAME_NUMBER};

verus! {

/// Number of tracked free ranges that the kernel's allocator is built with.
pub const DEFAULT_RANGE_CAPACITY: usize = 1024;

/// The kind of a memory-map entry.
#[derive(Clone, Copy, Debug, PartialEq, Eq, Structural)]
pub enum MemoryKind {
    /// RAM that the kernel may use.
    Usable,
    /// Anything else: firmware tables, device memory, holes.
    Reserved,
}

/// One entry of the memory map, in bytes: `size` bytes from `start`.
#[derive(Clone, Copy, Debug, PartialEq, Eq, Structural)]
pub struct MemoryRegion {
    pub start: u64,
    pub size: u64,
    pub kind: MemoryKind,
}

/// Why the allocator could not be built.
#[derive(Clone, Copy, Debug, PartialEq, Eq, Structural)]
pub enum FrameAllocError {
    /// The free memory splits into more ranges than the allocator can track.
    TooManyRanges,
}

/// End of a region in bytes, saturated at the top of the address space.
pub open spec fn region_end(region: MemoryRegion) -> int {
    if region.start + region.size > u64::MAX {
        u64::MAX as int
    } else {
        region.start + region.size
    }
}

pub open spec fn clamp_frame(x: int) -> int {
    if x > MAX_FRAME_NUMBER {
        MAX_FRAME_NUMBER as int
    } else {
        x
    }
}

/// The frames that lie wholly inside the region (below the frame limit).
pub open spec fn inner_frames(region: MemoryRegion) -> FrameRange {
    let fs = FRAME_SIZE as int;
    let start = region.start as int;
    let first = clamp_frame(start / fs + if start % fs != 0 { 1int } else { 0int });
    let last = clamp_frame(region_end(region) / fs);
    FrameRange { start: first as u64, end: if last < first { first as u64 } else { last as u64 } }
}

/// The frames that share at least one byte with the region (below the frame
/// limit).
pub open spec fn touched_frames(region: MemoryRegion) -> FrameRange {
    let fs = FRAME_SIZE as int;
    let end = region_end(region);
    let first = clamp_frame((region.start as int) / fs);
    let last = clamp_frame(end / fs + if end % fs != 0 { 1int } else { 0int });
    if region.size == 0 {
        FrameRange { start: first as u64, end: first as u64 }
    } else {
        FrameRange { start: first as u64, end: last as u64 }
    }
}

/// Whether some range of `rs` holds frame `f`.
pub open spec fn covers(rs: Seq<FrameRange>, f: int) -> bool {
    exists|k: int| 0 <= k < rs.len() && #[trigger] rs[k].contains(f)
}

/// No frame lies in two ranges of `rs`.
pub open spec fn pairwise_disjoint(rs: Seq<FrameRange>) -> bool {
    forall|i: int, j: int, f: int|
        0 <= i < rs.len() && 0 <= j < rs.len() && i != j && #[trigger] rs[i].contains(f)
            ==> !#[trigger] rs[j].contains(f)
}

/// Every range is well formed, and no two share a frame.
pub open spec fn ranges_wf(rs: Seq<FrameRange>) -> bool {
    &&& forall|k: int| 0 <= k < rs.len() ==> (#[trigger] rs[k]).wf()
    &&& pairwise_disjoint(rs)
}

/// Total number of frames in `rs`.
pub open spec fn total_frames(rs: Seq<FrameRange>) -> int
    decreases rs.len(),
{
    if rs.len() == 0 {
        0
    } else {
        total_frames(rs.drop_last()) + rs.last().spec_len()
    }
}

/// What remains of `s` once the frames of `r` are taken out: up to two pieces.
pub open spec fn pieces(s: FrameRange, r: FrameRange) -> Seq<FrameRange> {
    let left = FrameRange { start: s.start, end: if s.end < r.start { s.end } else { r.start } };
    let right = FrameRange { start: if s.start > r.end { s.start } else { r.end }, end: s.end };
    (if left.start < left.end {
        seq![left]
    } else {
        seq![]
    }) + (if right.start < right.end {
        seq![right]
    } else {
        seq![]
    })
}

/// The ranges `rs` with the frames of `r` taken out, in order.
pub open spec fn without(rs: Seq<FrameRange>, r: FrameRange) -> Seq<FrameRange>
    decreases rs.len(),
{
    if rs.len() == 0 {
        seq![]
    } else {
        without(rs.drop_last(), r) + pieces(rs.last(), r)
    }
}

/// The ranges `rs` with the frames of `r` added.
pub open spec fn with_range(rs: Seq<FrameRange>, r: FrameRange) -> Seq<FrameRange> {
    if r.start < r.end {
        without(rs, r).push(r)
    } else {
        rs
    }
}

/// Free ranges after adding the usable regions of `map`, in order.
pub open spec fn add_usable(rs: Seq<FrameRange>, map: Seq<MemoryRegion>) -> Seq<FrameRange>
    decreases map.len(),
{
    if map.len() == 0 {
        rs
    } else {
        let rest = add_usable(rs, map.drop_last());
        if map.last().kind == MemoryKind::Usable {
            with_range(rest, inner_frames(map.last()))
        } else {
            rest
        }
    }
}

/// Free ranges after taking out every frame that a region of `used` touches.
pub open spec fn remove_used(rs: Seq<FrameRange>, used: Seq<MemoryRegion>) -> Seq<FrameRange>
    decreases used.len(),
{
    if used.len() == 0 {
        rs
    } else {
        without(remove_used(rs, used.drop_last()), touched_frames(used.last()))
    }
}

/// The free ranges that a memory map and the regions already in use give.
pub open spec fn initial_ranges(map: Seq<MemoryRegion>, used: Seq<MemoryRegion>) -> Seq<
    FrameRange,
> {
    remove_used(add_usable(seq![], map), used)
}

/// Index of the first range of `rs`, from `i` on, that holds at least `n`
/// frames; `rs.len()` if there is none.
pub open spec fn fit_from(rs: Seq<FrameRange>, n: int, i: int) -> int
    decreases rs.len() - i,
{
    if i < 0 || i >= rs.len() {
        rs.len() as int
    } else if rs[i].spec_len() >= n {
        i
    } else {
        fit_from(rs, n, i + 1)
    }
}

/// The run of `n` frames that first-fit allocation hands out.
pub open spec fn alloc_result(rs: Seq<FrameRange>, n: u64) -> Option<FrameRange> {
    let i = fit_from(rs, n as int, 0);
    if i < rs.len() {
        Some(FrameRange { start: rs[i].start, end: (rs[i].start + n) as u64 })
    } else {
        None
    }
}

/// The free ranges after first-fit allocation of `n` frames.
pub open spec fn after_alloc(rs: Seq<FrameRange>, n: u64) -> Seq<FrameRange> {
    let i = fit_from(rs, n as int, 0);
    if i < rs.len() {
        rs.update(i, FrameRange { start: (rs[i].start + n) as u64, end: rs[i].end })
    } else {
        rs
    }
}

pub proof fn lemma_covers_concat(a: Seq<FrameRange>, b: Seq<FrameRange>)
    ensures
        forall|f: int| #[trigger] covers(a + b, f) <==> covers(a, f) || covers(b, f),
{
    assert forall|f: int| #[trigger] covers(a + b, f) <==> covers(a, f) || covers(b, f) by {
        if covers(a + b, f) {
            let k = choose|k: int| 0 <= k < (a + b).len() && #[trigger] (a + b)[k].contains(f);
            if k < a.len() {
                assert(a[k].contains(f));
            } else {
                assert(b[k - a.len()].contains(f));
            }
        }
        if covers(a, f) {
            let k = choose|k: int| 0 <= k < a.len() && #[trigger] a[k].contains(f);
            assert((a + b)[k].contains(f));
        }
        if covers(b, f) {
            let k = choose|k: int| 0 <= k < b.len() && #[trigger] b[k].contains(f);
            assert((a + b)[k + a.len()].contains(f));
        }
    }
}

pub proof fn lemma_covers_last(rs: Seq<FrameRange>)
    requires
        rs.len() > 0,
    ensures
        forall|f: int|
            #[trigger] covers(rs, f) <==> covers(rs.drop_last(), f) || rs.last().contains(f),
{
    assert(rs =~= rs.drop_last() + seq![rs.last()]);
    lemma_covers_concat(rs.drop_last(), seq![rs.last()]);
    assert forall|f: int| covers(seq![rs.last()], f) <==> rs.last().contains(f) by {
        if rs.last().contains(f) {
            assert(seq![rs.last()][0].contains(f));
        }
    }
}

proof fn lemma_pieces(s: FrameRange, r: FrameRange)
    requires
        s.wf(),
        r.wf(),
    ensures
        ranges_wf(pieces(s, r)),
        forall|f: int| #[trigger] covers(pieces(s, r), f) <==> s.contains(f) && !r.contains(f),
{
    let left = FrameRange { start: s.start, end: if s.end < r.start { s.end } else { r.start } };
    let right = FrameRange { start: if s.start > r.end { s.start } else { r.end }, end: s.end };
    let a: Seq<FrameRange> = if left.start < left.end {
        seq![left]
    } else {
        seq![]
    };
    let b: Seq<FrameRange> = if right.start < right.end {
        seq![right]
    } else {
        seq![]
    };
    assert(pieces(s, r) == a + b);
    lemma_covers_concat(a, b);
    assert forall|f: int| covers(a, f) <==> left.contains(f) by {
        if left.contains(f) {
            assert(a[0].contains(f));
        }
    }
    assert forall|f: int| covers(b, f) <==> right.contains(f) by {
        if right.contains(f) {
            assert(b[0].contains(f));
        }
    }
}

/// Taking frames out keeps the ranges well formed and removes exactly those
/// frames.
pub proof fn lemma_without(rs: Seq<FrameRange>, r: FrameRange)
    requires
        ranges_wf(rs),
        r.wf(),
    ensures
        ranges_wf(without(rs, r)),
        forall|f: int| #[trigger] covers(without(rs, r), f) <==> covers(rs, f) && !r.contains(f),
    decreases rs.len(),
{
    if rs.len() > 0 {
        let init = rs.drop_last();
        let s = rs.last();
        assert forall|i: int, j: int, f: int|
            0 <= i < init.len() && 0 <= j < init.len() && i != j
                && #[trigger] init[i].contains(f) implies !#[trigger] init[j].contains(f) by {
            assert(rs[i].contains(f));
        }
        lemma_without(init, r);
        let a = without(init, r);
        let b = pieces(s, r);
        assert(s.wf());
        lemma_pieces(s, r);
        lemma_covers_concat(a, b);
        lemma_covers_last(rs);
        let c = a + b;
        assert(without(rs, r) == c);
        assert forall|k: int| 0 <= k < c.len() implies (#[trigger] c[k]).wf() by {
            if k < a.len() {
                assert(c[k] == a[k]);
            } else {
                assert(c[k] == b[k - a.len()]);
            }
        }
        assert forall|i: int, j: int, f: int|
            0 <= i < c.len() && 0 <= j < c.len() && i != j && #[trigger] c[i].contains(f)
                implies !#[trigger] c[j].contains(f) by {
            if c[j].contains(f) {
                if i < a.len() && j < a.len() {
                    assert(a[i].contains(f) && a[j].contains(f));
                } else if i >= a.len() && j >= a.len() {
                    assert(b[i - a.len()].contains(f) && b[j - a.len()].contains(f));
                } else {
                    let ka = if i < a.len() {
                        i
                    } else {
                        j
                    };
                    let kb = if i < a.len() {
                        j - a.len()
                    } else {
                        i - a.len()
                    };
                    assert(a[ka].contains(f));
                    assert(b[kb].contains(f));
                    assert(covers(a, f));
                    assert(covers(b, f));
                    assert(covers(init, f));
                    let w = choose|w: int| 0 <= w < init.len() && #[trigger] init[w].contains(f);
                    assert(rs[w].contains(f));
                    assert(rs[rs.len() - 1].contains(f));
                }
            }
        }
    }
}

/// Adding a range keeps the ranges well formed and adds exactly its frames.
pub proof fn lemma_with_range(rs: Seq<FrameRange>, r: FrameRange)
    requires
        ranges_wf(rs),
        r.wf(),
    ensures
        ranges_wf(with_range(rs, r)),
        forall|f: int| #[trigger] covers(with_range(rs, r), f) <==> covers(rs, f) || r.contains(f),
{
    if r.start < r.end {
        lemma_without(rs, r);
        let w = without(rs, r);
        let c = w.push(r);
        lemma_covers_last(c);
        assert(c.drop_last() == w);
        assert forall|k: int| 0 <= k < c.len() implies (#[trigger] c[k]).wf() by {
            if k < w.len() {
                assert(c[k] == w[k]);
            }
        }
        assert forall|i: int, j: int, f: int|
            0 <= i < c.len() && 0 <= j < c.len() && i != j && #[trigger] c[i].contains(f)
                implies !#[trigger] c[j].contains(f) by {
            if c[j].contains(f) {
                if i < w.len() && j < w.len() {
                    assert(w[i].contains(f) && w[j].contains(f));
                } else {
                    let k = if i < w.len() {
                        i
                    } else {
                        j
                    };
                    assert(w[k].contains(f));
                    assert(covers(w, f));
                }
            }
        }
    }
}

proof fn lemma_fit_from(rs: Seq<FrameRange>, n: int, i: int)
    requires
        0 <= i <= rs.len(),
    ensures
        i <= fit_from(rs, n, i) <= rs.len(),
        fit_from(rs, n, i) < rs.len() ==> rs[fit_from(rs, n, i)].spec_len() >= n,
        forall|j: int| i <= j < fit_from(rs, n, i) ==> #[trigger] rs[j].spec_len() < n,
    decreases rs.len() - i,
{
    if i < rs.len() && rs[i].spec_len() < n {
        lemma_fit_from(rs, n, i + 1);
    }
}

proof fn lemma_total_bounds(rs: Seq<FrameRange>)
    requires
        forall|k: int| 0 <= k < rs.len() ==> (#[trigger] rs[k]).wf(),
    ensures
        total_frames(rs) >= 0,
        forall|k: int| 0 <= k < rs.len() ==> #[trigger] rs[k].spec_len() <= total_frames(rs),
    decreases rs.len(),
{
    if rs.len() > 0 {
        let init = rs.drop_last();
        assert forall|k: int| 0 <= k < init.len() implies (#[trigger] init[k]).wf() by {
            assert(init[k] == rs[k]);
        }
        lemma_total_bounds(init);
        assert forall|k: int| 0 <= k < rs.len() implies #[trigger] rs[k].spec_len() <= total_frames(
            rs,
        ) by {
            if k < init.len() {
                assert(init[k] == rs[k]);
            }
        }
    }
}

/// First-fit allocation of `n` frames: it fails exactly when no free range
/// holds `n` frames; otherwise it hands out `n` consecutive free frames, which
/// are no longer free afterwards, and nothing else changes.
pub proof fn lemma_alloc(rs: Seq<FrameRange>, n: u64)
    requires
        ranges_wf(rs),
    ensures
        ranges_wf(after_alloc(rs, n)),
        after_alloc(rs, n).len() == rs.len(),
        alloc_result(rs, n) is None <==> forall|k: int| 0 <= k < rs.len() ==> #[trigger] rs[k].spec_len() < n,
        alloc_result(rs, n) is None ==> after_alloc(rs, n) == rs,
        alloc_result(rs, n) matches Some(g) ==> {
            &&& g.wf()
            &&& g.spec_len() == n
            &&& forall|f: int| #[trigger] g.contains(f) ==> covers(rs, f)
            &&& forall|f: int|
                #[trigger] covers(after_alloc(rs, n), f) <==> covers(rs, f) && !g.contains(f)
        },
{
    lemma_fit_from(rs, n as int, 0);
    let i = fit_from(rs, n as int, 0);
    if i < rs.len() {
        let s = rs[i];
        let g = FrameRange { start: s.start, end: (s.start + n) as u64 };
        let t = FrameRange { start: (s.start + n) as u64, end: s.end };
        let c = rs.update(i, t);
        assert(s.wf());
        assert forall|k: int| 0 <= k < c.len() implies (#[trigger] c[k]).wf() by {
            assert(rs[k].wf());
        }
        assert forall|a: int, b: int, f: int|
            0 <= a < c.len() && 0 <= b < c.len() && a != b && #[trigger] c[a].contains(f)
                implies !#[trigger] c[b].contains(f) by {
            if c[b].contains(f) {
                assert(rs[a].contains(f) && rs[b].contains(f));
            }
        }
        assert forall|f: int| #[trigger] g.contains(f) implies covers(rs, f) by {
            assert(rs[i].contains(f));
        }
        assert forall|f: int| #[trigger] covers(c, f) <==> covers(rs, f) && !g.contains(f) by {
            if covers(c, f) {
                let k = choose|k: int| 0 <= k < c.len() && #[trigger] c[k].contains(f);
                assert(rs[k].contains(f));
                if g.contains(f) && k != i {
                    assert(rs[i].contains(f));
                }
            }
            if covers(rs, f) && !g.contains(f) {
                let k = choose|k: int| 0 <= k < rs.len() && #[trigger] rs[k].contains(f);
                assert(c[k].contains(f));
            }
        }
    } else {
        assert forall|k: int| 0 <= k < rs.len() implies #[trigger] rs[k].spec_len() < n by {
            assert(0 <= k < fit_from(rs, n as int, 0));
        }
    }
}

/// Two allocations in a row never hand out the same frame.
pub proof fn lemma_successive_allocations_disjoint(rs: Seq<FrameRange>, n1: u64, n2: u64)
    requires
        ranges_wf(rs),
    ensures
        alloc_result(rs, n1) matches Some(g1) ==> (alloc_result(after_alloc(rs, n1), n2) matches Some(g2)
            ==> forall|f: int| g1.contains(f) ==> !#[trigger] g2.contains(f)),
{
    lemma_alloc(rs, n1);
    lemma_alloc(after_alloc(rs, n1), n2);
}

/// Asking for more frames than are free fails.
pub proof fn lemma_alloc_beyond_free_fails(rs: Seq<FrameRange>, n: u64)
    requires
        ranges_wf(rs),
        n > total_frames(rs),
    ensures
        alloc_result(rs, n) is None,
        after_alloc(rs, n) == rs,
{
    lemma_total_bounds(rs);
    lemma_alloc(rs, n);
}

/// Run of `n` frames handed out: exactly `n` frames, each starting one frame
/// size after the previous one, all frame-aligned.
pub proof fn lemma_contiguous_run(rs: Seq<FrameRange>, n: u64)
    requires
        ranges_wf(rs),
    ensures
        alloc_result(rs, n) matches Some(g) ==> {
            &&& g.spec_len() == n
            &&& forall|i: int|
                0 <= i < n ==> #[trigger] ((g.start + i) * FRAME_SIZE) == g.start * FRAME_SIZE + i
                    * FRAME_SIZE && ((g.start + i) * FRAME_SIZE) % (FRAME_SIZE as int) == 0
        },
{
    lemma_alloc(rs, n);
    if let Some(g) = alloc_result(rs, n) {
        assert forall|i: int| 0 <= i < n implies #[trigger] ((g.start + i) * FRAME_SIZE) == g.start
            * FRAME_SIZE + i * FRAME_SIZE && ((g.start + i) * FRAME_SIZE) % (FRAME_SIZE as int)
            == 0 by {
            let x = g.start + i;
            let st = g.start as int;
            assert(x * 0x20_0000 == st * 0x20_0000 + i * 0x20_0000) by (nonlinear_arith)
                requires
                    x == st + i,
            ;
            assert((x * 0x20_0000) % 0x20_0000 == 0) by (nonlinear_arith);
        }
    }
}

/// Frame `f` lies wholly inside a usable region of `map`.
pub open spec fn usable_frame(map: Seq<MemoryRegion>, f: int) -> bool {
    exists|k: int|
        0 <= k < map.len() && map[k].kind == MemoryKind::Usable && #[trigger] inner_frames(
            map[k],
        ).contains(f)
}

/// Frame `f` shares a byte with a region of `used`.
pub open spec fn used_frame(used: Seq<MemoryRegion>, f: int) -> bool {
    exists|k: int| 0 <= k < used.len() && #[trigger] touched_frames(used[k]).contains(f)
}

proof fn lemma_add_usable(rs: Seq<FrameRange>, map: Seq<MemoryRegion>)
    requires
        ranges_wf(rs),
    ensures
        ranges_wf(add_usable(rs, map)),
        forall|f: int| #[trigger]
            covers(add_usable(rs, map), f) <==> covers(rs, f) || usable_frame(map, f),
    decreases map.len(),
{
    if map.len() > 0 {
        let init = map.drop_last();
        let last = map.last();
        lemma_add_usable(rs, init);
        let rest = add_usable(rs, init);
        assert forall|f: int| usable_frame(map, f) <==> usable_frame(init, f) || (last.kind
            == MemoryKind::Usable && inner_frames(last).contains(f)) by {
            if usable_frame(map, f) {
                let k = choose|k: int|
                    0 <= k < map.len() && map[k].kind == MemoryKind::Usable
                        && #[trigger] inner_frames(map[k]).contains(f);
                if k < init.len() {
                    assert(init[k] == map[k]);
                }
            }
            if usable_frame(init, f) {
                let k = choose|k: int|
                    0 <= k < init.len() && init[k].kind == MemoryKind::Usable
                        && #[trigger] inner_frames(init[k]).contains(f);
                assert(init[k] == map[k]);
            }
            if last.kind == MemoryKind::Usable && inner_frames(last).contains(f) {
                assert(map[map.len() - 1] == last);
            }
        }
        if last.kind == MemoryKind::Usable {
            lemma_with_range(rest, inner_frames(last));
        }
    }
}

proof fn lemma_remove_used(rs: Seq<FrameRange>, used: Seq<MemoryRegion>)
    requires
        ranges_wf(rs),
    ensures
        ranges_wf(remove_used(rs, used)),
        forall|f: int| #[trigger]
            covers(remove_used(rs, used), f) <==> covers(rs, f) && !used_frame(used, f),
    decreases used.len(),
{
    if used.len() > 0 {
        let init = used.drop_last();
        let last = used.last();
        lemma_remove_used(rs, init);
        assert forall|f: int| used_frame(used, f) <==> used_frame(init, f) || touched_frames(
            last,
        ).contains(f) by {
            if used_frame(used, f) {
                let k = choose|k: int| 0 <= k < used.len() && #[trigger] touched_frames(used[k]).contains(f);
                if k < init.len() {
                    assert(init[k] == used[k]);
                }
            }
            if used_frame(init, f) {
                let k = choose|k: int| 0 <= k < init.len() && #[trigger] touched_frames(init[k]).contains(f);
                assert(init[k] == used[k]);
            }
            if touched_frames(last).contains(f) {
                assert(used[used.len() - 1] == last);
            }
        }
        lemma_without(remove_used(rs, init), touched_frames(last));
    }
}

/// The allocator built from a memory map frees exactly the frames that lie
/// wholly inside a usable region and share no byte with a used region, and
/// tracks them in pairwise-disjoint ranges.
pub proof fn lemma_initial_ranges(map: Seq<MemoryRegion>, used: Seq<MemoryRegion>)
    ensures
        ranges_wf(initial_ranges(map, used)),
        forall|f: int| #[trigger]
            covers(initial_ranges(map, used), f) <==> usable_frame(map, f) && !used_frame(used, f),
{
    let empty: Seq<FrameRange> = seq![];
    lemma_add_usable(empty, map);
    lemma_remove_used(add_usable(empty, map), used);
}

/// In bytes: a frame is among `inner_frames(region)` exactly when it lies
/// below the frame limit and wholly inside the region.
pub proof fn lemma_inner_frames_bytes(region: MemoryRegion)
    ensures
        forall|f: int| #[trigger]
            inner_frames(region).contains(f) <==> 0 <= f < MAX_FRAME_NUMBER && region.start <= f
                * FRAME_SIZE && (f + 1) * FRAME_SIZE <= region_end(region),
{
    let fs = FRAME_SIZE as int;
    let st = region.start as int;
    let e = region_end(region);
    assert(st == fs * (st / fs) + st % fs);
    assert(e == fs * (e / fs) + e % fs);
    assert forall|f: int| #[trigger]
        inner_frames(region).contains(f) <==> 0 <= f < MAX_FRAME_NUMBER && region.start <= f
            * FRAME_SIZE && (f + 1) * FRAME_SIZE <= region_end(region) by {
        assert(st <= f * fs <==> f >= st / fs + if st % fs != 0 {
            1int
        } else {
            0int
        }) by (nonlinear_arith)
            requires
                fs == 0x20_0000,
                st == fs * (st / fs) + st % fs,
                0 <= st % fs < fs,
        ;
        assert((f + 1) * fs <= e <==> f < e / fs) by (nonlinear_arith)
            requires
                fs == 0x20_0000,
                e == fs * (e / fs) + e % fs,
                0 <= e % fs < fs,
        ;
    }
}

/// In bytes: a frame is among `touched_frames(region)` exactly when it lies
/// below the frame limit and shares at least one byte with the region.
pub proof fn lemma_touched_frames_bytes(region: MemoryRegion)
    ensures
        forall|f: int| #[trigger]
            touched_frames(region).contains(f) <==> 0 <= f < MAX_FRAME_NUMBER && region.size > 0
                && region.start < (f + 1) * FRAME_SIZE && f * FRAME_SIZE < region_end(region),
{
    let fs = FRAME_SIZE as int;
    let st = region.start as int;
    let e = region_end(region);
    assert(st == fs * (st / fs) + st % fs);
    assert(e == fs * (e / fs) + e % fs);
    assert forall|f: int| #[trigger]
        touched_frames(region).contains(f) <==> 0 <= f < MAX_FRAME_NUMBER && region.size > 0
            && region.start < (f + 1) * FRAME_SIZE && f * FRAME_SIZE < region_end(region) by {
        assert(st < (f + 1) * fs <==> f >= st / fs) by (nonlinear_arith)
            requires
                fs == 0x20_0000,
                st == fs * (st / fs) + st % fs,
                0 <= st % fs < fs,
        ;
        assert(f * fs < e <==> f < e / fs + if e % fs != 0 {
            1int
        } else {
            0int
        }) by (nonlinear_arith)
            requires
                fs == 0x20_0000,
                e == fs * (e / fs) + e % fs,
                0 <= e % fs < fs,
        ;
    }
}

fn region_end_exec(region: &MemoryRegion) -> (r: u64)
    ensures
        r == region_end(*region),
{
    if region.size > u64::MAX - region.start {
        u64::MAX
    } else {
        region.start + region.size
    }
}

fn clamp_frame_exec(x: u64) -> (r: u64)
    ensures
        r == clamp_frame(x as int),
{
    if x > MAX_FRAME_NUMBER {
        MAX_FRAME_NUMBER
    } else {
        x
    }
}

/// The frames that lie wholly inside `region`.
pub fn inner_frame_range(region: &MemoryRegion) -> (r: FrameRange)
    ensures
        r == inner_frames(*region),
        r.wf(),
{
    let up: u64 = if region.start % FRAME_SIZE != 0 {
        1
    } else {
        0
    };
    let first = clamp_frame_exec(region.start / FRAME_SIZE + up);
    let last = clamp_frame_exec(region_end_exec(region) / FRAME_SIZE);
    FrameRange {
        start: first,
        end: if last < first {
            first
        } else {
            last
        },
    }
}

/// The frames that share at least one byte with `region`.
pub fn touched_frame_range(region: &MemoryRegion) -> (r: FrameRange)
    ensures
        r == touched_frames(*region),
        r.wf(),
{
    let end = region_end_exec(region);
    let up: u64 = if end % FRAME_SIZE != 0 {
        1
    } else {
        0
    };
    let first = clamp_frame_exec(region.start / FRAME_SIZE);
    let last = clamp_frame_exec(end / FRAME_SIZE + up);
    if region.size == 0 {
        FrameRange { start: first, end: first }
    } else {
        assert(first <= last);
        FrameRange { start: first, end: last }
    }
}

/// The ranges `rs` with the frames of `r` taken out.
fn remove_frames(rs: &Vec<FrameRange>, r: FrameRange) -> (out: Vec<FrameRange>)
    ensures
        out@ == without(rs@, r),
{
    let mut out: Vec<FrameRange> = Vec::new();
    let mut i: usize = 0;
    while i < rs.len()
        invariant
            i <= rs@.len(),
            out@ == without(rs@.take(i as int), r),
        decreases rs@.len() - i,
    {
        let s = rs[i];
        let ghost before = out@;
        assert(rs@.take(i + 1).drop_last() == rs@.take(i as int));
        assert(rs@.take(i + 1).last() == s);
        let left_end = if s.end < r.start {
            s.end
        } else {
            r.start
        };
        let right_start = if s.start > r.end {
            s.start
        } else {
            r.end
        };
        let left = FrameRange { start: s.start, end: left_end };
        let right = FrameRange { start: right_start, end: s.end };
        if s.start < left_end {
            out.push(left);
        }
        if right_start < s.end {
            out.push(right);
        }
        assert(out@ =~= before + pieces(s, r));
        i = i + 1;
    }
    assert(rs@.take(rs@.len() as int) == rs@);
    out
}

/// The ranges `rs` with the frames of `r` added.
fn add_frames(rs: &Vec<FrameRange>, r: FrameRange) -> (out: Vec<FrameRange>)
    ensures
        out@ == with_range(rs@, r),
{
    if r.start < r.end {
        let mut out = remove_frames(rs, r);
        out.push(r);
        out
    } else {
        rs.clone()
    }
}

/// Allocator of physical frames over a bounded number of free ranges.
pub struct PhysicalMemoryAllocator {
    ranges: Vec<FrameRange>,
    capacity: usize,
}

impl View for PhysicalMemoryAllocator {
    type V = Seq<FrameRange>;

    /// The free frame ranges.
    closed spec fn view(&self) -> Seq<FrameRange> {
        self.ranges@
    }
}

impl PhysicalMemoryAllocator {
    /// The number of ranges the allocator may track.
    pub closed spec fn spec_capacity(&self) -> nat {
        self.capacity as nat
    }

    pub open spec fn wf(&self) -> bool {
        ranges_wf(self@) && self@.len() <= self.spec_capacity()
    }

    /// Whether frame `f` is free.
    pub open spec fn is_free(&self, f: int) -> bool {
        covers(self@, f)
    }

    /// Builds the allocator from the memory map, leaving out every frame that
    /// a region of `used` (the loaded program image) touches. Fails when the
    /// free memory needs more than `capacity` ranges.
    pub fn init(memory_map: &Vec<MemoryRegion>, used: &Vec<MemoryRegion>, capacity: usize) -> (r:
        Result<PhysicalMemoryAllocator, FrameAllocError>)
        ensures
            r is Ok <==> initial_ranges(memory_map@, used@).len() <= capacity,
            r matches Ok(a) ==> a.wf() && a@ == initial_ranges(memory_map@, used@)
                && a.spec_capacity() == capacity,
            r matches Ok(a) ==> forall|f: int| #[trigger]
                a.is_free(f) <==> usable_frame(memory_map@, f) && !used_frame(used@, f),
            r matches Err(e) ==> e == FrameAllocError::TooManyRanges,
    {
        let mut rs: Vec<FrameRange> = Vec::new();
        let mut i: usize = 0;
        while i < memory_map.len()
            invariant
                i <= memory_map@.len(),
                rs@ == add_usable(seq![], memory_map@.take(i as int)),
                ranges_wf(rs@),
            decreases memory_map@.len() - i,
        {
            let region = memory_map[i];
            assert(memory_map@.take(i + 1).drop_last() == memory_map@.take(i as int));
            assert(memory_map@.take(i + 1).last() == region);
            if region.kind == MemoryKind::Usable {
                let fr = inner_frame_range(&region);
                proof {
                    lemma_with_range(rs@, fr);
                }
                rs = add_frames(&rs, fr);
            }
            i = i + 1;
        }
        assert(memory_map@.take(memory_map@.len() as int) == memory_map@);
        let ghost base = rs@;
        let mut j: usize = 0;
        while j < used.len()
            invariant
                j <= used@.len(),
                base == add_usable(seq![], memory_map@),
                rs@ == remove_used(base, used@.take(j as int)),
                ranges_wf(rs@),
            decreases used@.len() - j,
        {
            let region = used[j];
            assert(used@.take(j + 1).drop_last() == used@.take(j as int));
            assert(used@.take(j + 1).last() == region);
            let fr = touched_frame_range(&region);
            proof {
                lemma_without(rs@, fr);
            }
            rs = remove_frames(&rs, fr);
            j = j + 1;
        }
        assert(used@.take(used@.len() as int) == used@);
        proof {
            lemma_initial_ranges(memory_map@, used@);
        }
        if rs.len() <= capacity {
            Ok(PhysicalMemoryAllocator { ranges: rs, capacity })
        } else {
            Err(FrameAllocError::TooManyRanges)
        }
    }

    /// Number of ranges the allocator may track.
    pub fn capacity(&self) -> (r: usize)
        ensures
            r == self.spec_capacity(),
    {
        self.capacity
    }

    /// Number of free ranges tracked now.
    pub fn range_count(&self) -> (r: usize)
        ensures
            r == self@.len(),
    {
        self.ranges.len()
    }

    /// Hands out `n` consecutive free frames, from the first free range that
    /// holds that many; `None` when no range does.
    pub fn allocate_contiguous(&mut self, n: u64) -> (r: Option<FrameRange>)
        requires
            old(self).wf(),
        ensures
            final(self).wf(),
            final(self).spec_capacity() == old(self).spec_capacity(),
            r == alloc_result(old(self)@, n),
            final(self)@ == after_alloc(old(self)@, n),
            r is None <==> forall|k: int|
                0 <= k < old(self)@.len() ==> #[trigger] old(self)@[k].spec_len() < n,
            r matches Some(g) ==> {
                &&& g.wf()
                &&& g.spec_len() == n
                &&& forall|f: int| #[trigger] g.contains(f) ==> old(self).is_free(f)
                &&& forall|f: int| #[trigger]
                    final(self).is_free(f) <==> old(self).is_free(f) && !g.contains(f)
            },
            r is None ==> *final(self) == *old(self),
    {
        let mut i: usize = 0;
        while i < self.ranges.len()
            invariant
                i <= self.ranges@.len(),
                self == old(self),
                self.wf(),
                fit_from(self@, n as int, 0) == fit_from(self@, n as int, i as int),
            decreases self.ranges@.len() - i,
        {
            let s = self.ranges[i];
            assert(self@[i as int] == s);
            if s.end - s.start >= n {
                assert(fit_from(old(self)@, n as int, i as int) == i);
                let got = FrameRange { start: s.start, end: s.start + n };
                self.ranges.set(i, FrameRange { start: s.start + n, end: s.end });
                assert(self@ == after_alloc(old(self)@, n));
                assert(Some(got) == alloc_result(old(self)@, n));
                proof {
                    lemma_alloc(old(self)@, n);
                }
                return Some(got);
            }
            i = i + 1;
        }
        proof {
            lemma_alloc(self@, n);
        }
        None
    }

    /// Hands out one free frame; `None` when no frame is free.
    pub fn allocate(&mut self) -> (r: Option<PhysFrame>)
        requires
            old(self).wf(),
        ensures
            final(self).wf(),
            final(self).spec_capacity() == old(self).spec_capacity(),
            final(self)@ == after_alloc(old(self)@, 1),
            r is None <==> forall|f: int| !#[trigger] old(self).is_free(f),
            r matches Some(fr) ==> {
                &&& fr.wf()
                &&& old(self).is_free(fr.number as int)
                &&& forall|f: int| #[trigger]
                    final(self).is_free(f) <==> old(self).is_free(f) && f != fr.number
            },
    {
        let r = self.allocate_contiguous(1);
        match r {
            Some(g) => {
                assert(g.contains(g.start as int));
                Some(PhysFrame { number: g.start })
            },
            None => {
                assert forall|f: int| !#[trigger] old(self).is_free(f) by {
                    if old(self).is_free(f) {
                        let k = choose|k: int|
                            0 <= k < old(self)@.len() && #[trigger] old(self)@[k].contains(f);
                        assert(old(self)@[k].spec_len() < 1);
                    }
                }
                None
            },
        }
    }
}

} // verus!
