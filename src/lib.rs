//! Early-boot memory management and boot sequencing for a restricted kernel
//! running inside a confidential virtual machine.
//!
//! The hardware-facing work (reading model-specific registers, writing page
//! tables, talking to the hypervisor) is done by the embedding kernel; this
//! crate holds the decisions and the bookkeeping, each with a contract.

mod boot;
mod channel;
mod frame;
mod frame_allocator;
mod once;
mod page_table;
mod sev;
mod virtual_address_allocator;

pub use boot::{
    BootAction, BootError, BootEvent, BootPhase, BootSequencer, SHARED_FRAMES,
};
pub use channel::{
    default_channel, eq_ignore_case, priority_order, select_channel, ChannelError,
    ChannelFeatures, ChannelType,
};
pub use frame::{FrameRange, PhysFrame, FRAME_SIZE, MAX_FRAME_NUMBER};
pub use frame_allocator::{
    inner_frame_range, touched_frame_range, FrameAllocError, MemoryKind, MemoryRegion,
    PhysicalMemoryAllocator, DEFAULT_RANGE_CAPACITY,
};
pub use once::OnceCell;
pub use page_table::{entry_flags, DirectMap, MemoryUse};
pub use sev::{detect_features, SevFeatures, SevStatus, SEV_ENABLED, SEV_ES_ENABLED, SNP_ACTIVE};
pub use virtual_address_allocator::{
    Page, PageRange, VirtualAddressAllocator, KERNEL_HEAP_PAGES, KERNEL_WINDOW_END,
    KERNEL_WINDOW_START, LARGE_PAGE_SIZE, MAX_PAGE_NUMBER,
};
