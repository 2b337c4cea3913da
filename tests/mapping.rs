use restricted_kernel::{
    entry_flags, DirectMap, FrameRange, MemoryUse, Page, PageRange, PhysFrame, FRAME_SIZE,
};

const MAP: DirectMap = DirectMap { base_page: 0x7ff_fc44_0000, frames: 64 };

#[test]
fn physical_round_trip() {
    let base = Page { number: MAP.base_page }.start_address();
    assert_eq!(base, 0xFFFF_8880_0000_0000);
    let phys = 0x12_3456;
    let virt = MAP.translate_physical(phys).unwrap();
    assert_eq!(virt, base + phys);
    assert_eq!(MAP.translate_virtual(virt), Some(phys));
    assert_eq!(MAP.translate_physical(64 * FRAME_SIZE), None);
    assert_eq!(MAP.translate_virtual(base - 1), None);
    assert_eq!(MAP.translate_virtual(base + 64 * FRAME_SIZE), None);
}

#[test]
fn frames_translate_to_pages() {
    assert_eq!(
        MAP.translate_physical_frame(PhysFrame { number: 3 }),
        Some(Page { number: MAP.base_page + 3 })
    );
    assert_eq!(MAP.translate_physical_frame(PhysFrame { number: 64 }), None);
    assert_eq!(
        MAP.translate_frame_range(FrameRange { start: 10, end: 12 }),
        Some(PageRange { start: MAP.base_page + 10, end: MAP.base_page + 12 })
    );
    assert_eq!(MAP.translate_frame_range(FrameRange { start: 63, end: 65 }), None);
}

#[test]
fn encrypted_bit_follows_memory_use() {
    let c_bit = 1u64 << 51;
    let flags = 0b11u64;
    assert_eq!(entry_flags(flags, c_bit, MemoryUse::Private), flags | c_bit);
    assert_eq!(entry_flags(flags | c_bit, c_bit, MemoryUse::SharedWithHost), flags);
    assert_eq!(entry_flags(flags, c_bit, MemoryUse::SharedWithHost), flags);
}
