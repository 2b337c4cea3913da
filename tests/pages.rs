use restricted_kernel::{
    Page, PageRange, VirtualAddressAllocator, KERNEL_HEAP_PAGES, KERNEL_WINDOW_END,
    KERNEL_WINDOW_START,
};

#[test]
fn kernel_window_bounds() {
    assert_eq!(Page { number: KERNEL_WINDOW_START }.start_address(), 0xFFFF_C900_0000_0000);
    assert_eq!(Page { number: KERNEL_WINDOW_END }.start_address(), 0xFFFF_E900_0000_0000);
    let a = VirtualAddressAllocator::kernel_window();
    // 32 TiB of 2 MiB pages.
    assert_eq!(a.remaining(), 1 << 24);
}

#[test]
fn heap_reservation_then_next_allocation_follows() {
    let mut a = VirtualAddressAllocator::kernel_window();
    let heap = a.allocate(KERNEL_HEAP_PAGES).unwrap();
    assert_eq!(heap.start, KERNEL_WINDOW_START);
    assert_eq!(heap.len(), 1 << 19);
    let next = a.allocate(3).unwrap();
    assert_eq!(next.start, heap.end);
    assert_eq!(next.len(), 3);
}

#[test]
fn allocations_never_overlap() {
    let mut a = VirtualAddressAllocator::new(PageRange { start: 100, end: 120 });
    let mut got: Vec<PageRange> = Vec::new();
    for n in [3u64, 0, 5, 7, 4, 9, 1] {
        if let Some(r) = a.allocate(n) {
            got.push(r);
        }
    }
    for (i, x) in got.iter().enumerate() {
        assert!(x.start >= 100 && x.end <= 120);
        for y in got.iter().skip(i + 1) {
            assert!(x.end <= y.start);
        }
    }
}

#[test]
fn exhausted_window_fails_without_wrapping() {
    let mut a = VirtualAddressAllocator::new(PageRange { start: 0, end: 4 });
    assert_eq!(a.allocate(3), Some(PageRange { start: 0, end: 3 }));
    assert_eq!(a.allocate(2), None);
    assert_eq!(a.remaining(), 1);
    assert_eq!(a.allocate(1), Some(PageRange { start: 3, end: 4 }));
    assert_eq!(a.allocate(1), None);
    assert_eq!(a.allocate(u64::MAX), None);
}
