use restricted_kernel::{
    inner_frame_range, touched_frame_range, FrameAllocError, FrameRange, MemoryKind,
    MemoryRegion, PhysFrame, PhysicalMemoryAllocator, DEFAULT_RANGE_CAPACITY, FRAME_SIZE,
};

const MIB: u64 = 0x10_0000;

fn usable(start: u64, size: u64) -> MemoryRegion {
    MemoryRegion { start, size, kind: MemoryKind::Usable }
}

fn reserved(start: u64, size: u64) -> MemoryRegion {
    MemoryRegion { start, size, kind: MemoryKind::Reserved }
}

fn allocator(map: Vec<MemoryRegion>, used: Vec<MemoryRegion>) -> PhysicalMemoryAllocator {
    PhysicalMemoryAllocator::init(&map, &used, DEFAULT_RANGE_CAPACITY).unwrap()
}

#[test]
fn frame_from_aligned_address() {
    assert_eq!(PhysFrame::from_start_address(0x40_0000), Some(PhysFrame { number: 2 }));
    assert_eq!(PhysFrame::from_start_address(0x40_1000), None);
    assert_eq!(PhysFrame { number: 3 }.start_address(), 0x60_0000);
}

#[test]
fn inner_frames_round_inwards() {
    let r = inner_frame_range(&usable(MIB, 5 * MIB));
    assert_eq!(r, FrameRange { start: 1, end: 3 });
    let empty = inner_frame_range(&usable(MIB, MIB));
    assert_eq!(empty.len(), 0);
}

#[test]
fn touched_frames_round_outwards() {
    let r = touched_frame_range(&usable(2 * MIB + 1, 2 * MIB + 4));
    assert_eq!(r, FrameRange { start: 1, end: 3 });
    assert_eq!(touched_frame_range(&usable(4 * MIB, 0)).len(), 0);
}

#[test]
fn successive_allocations_are_disjoint() {
    let mut a = allocator(vec![usable(0, 8 * MIB)], vec![]);
    let first = a.allocate_contiguous(2).unwrap();
    let second = a.allocate_contiguous(2).unwrap();
    assert_eq!(first, FrameRange { start: 0, end: 2 });
    assert_eq!(second, FrameRange { start: 2, end: 4 });
    assert!(first.end <= second.start);
    assert_eq!(a.allocate(), None);
}

#[test]
fn single_frames_are_distinct() {
    let mut a = allocator(vec![usable(0, 6 * MIB)], vec![]);
    let x = a.allocate().unwrap();
    let y = a.allocate().unwrap();
    let z = a.allocate().unwrap();
    assert_ne!(x, y);
    assert_ne!(y, z);
    assert_ne!(x, z);
    assert_eq!(a.allocate(), None);
}

#[test]
fn request_beyond_free_frames_fails() {
    let mut a = allocator(vec![usable(0, 6 * MIB)], vec![]);
    assert_eq!(a.allocate_contiguous(4), None);
    // Nothing was taken by the failed request.
    assert_eq!(a.allocate_contiguous(3), Some(FrameRange { start: 0, end: 3 }));
}

#[test]
fn contiguous_run_is_consecutive_and_aligned() {
    let mut a = allocator(vec![usable(16 * MIB, 16 * MIB)], vec![]);
    let run = a.allocate_contiguous(3).unwrap();
    assert_eq!(run.len(), 3);
    let frames = run.frames();
    assert_eq!(frames.len(), 3);
    for (i, f) in frames.iter().enumerate() {
        let addr = f.start_address();
        assert_eq!(addr % FRAME_SIZE, 0);
        assert_eq!(addr, 16 * MIB + (i as u64) * FRAME_SIZE);
        assert_eq!(*f, run.nth(i as u64));
    }
}

#[test]
fn shared_region_on_single_free_frame_fails() {
    let mut a = allocator(vec![usable(2 * MIB, 2 * MIB)], vec![]);
    assert_eq!(a.allocate_contiguous(2), None);
    assert_eq!(a.allocate(), Some(PhysFrame { number: 1 }));
}

#[test]
fn used_regions_are_left_out() {
    // Eight frames; the program image touches frames 1 and 2.
    let mut a = allocator(vec![usable(0, 16 * MIB)], vec![usable(2 * MIB + 1, 2 * MIB + 4)]);
    assert_eq!(a.range_count(), 2);
    assert_eq!(a.allocate(), Some(PhysFrame { number: 0 }));
    assert_eq!(a.allocate_contiguous(5), Some(FrameRange { start: 3, end: 8 }));
    assert_eq!(a.allocate(), None);
}

#[test]
fn reserved_map_entries_are_ignored() {
    let mut a = allocator(vec![reserved(0, 8 * MIB), usable(8 * MIB, 2 * MIB)], vec![]);
    assert_eq!(a.allocate(), Some(PhysFrame { number: 4 }));
    assert_eq!(a.allocate(), None);
}

#[test]
fn overlapping_map_entries_count_once() {
    let mut a = allocator(vec![usable(0, 8 * MIB), usable(4 * MIB, 8 * MIB)], vec![]);
    assert_eq!(a.allocate_contiguous(7), None);
    let mut total = 0;
    while a.allocate().is_some() {
        total += 1;
    }
    assert_eq!(total, 6);
}

#[test]
fn too_many_ranges_is_refused() {
    let map = vec![usable(0, 2 * MIB), usable(8 * MIB, 2 * MIB)];
    let r = PhysicalMemoryAllocator::init(&map, &vec![], 1);
    assert!(matches!(r, Err(FrameAllocError::TooManyRanges)));
    let ok = PhysicalMemoryAllocator::init(&map, &vec![], 2).unwrap();
    assert_eq!(ok.capacity(), 2);
    assert_eq!(ok.range_count(), 2);
}
