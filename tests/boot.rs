use restricted_kernel::{
    detect_features, BootAction, BootError, BootEvent, BootPhase, BootSequencer,
    ChannelFeatures, ChannelType, FrameRange, MemoryKind, MemoryRegion, OnceCell, SevFeatures,
    SevStatus, PhysicalMemoryAllocator, KERNEL_HEAP_PAGES, SEV_ES_ENABLED, SNP_ACTIVE,
    SHARED_FRAMES,
};

const VSOCK_SERIAL: ChannelFeatures =
    ChannelFeatures { virtio_console: false, vsock: true, serial: true, simple_io: false };

fn is_snp_step(a: &BootAction) -> bool {
    matches!(
        a,
        BootAction::InitGhcb { snp: true }
            | BootAction::LocateSnpPages
            | BootAction::InitSnpPages
            | BootAction::InitMessageEncryptor
            | BootAction::ShareFramesWithHost
            | BootAction::GenerateAttestation
            | BootAction::ValidateAttestation
    )
}

/// Drives the sequencer up to the status read.
fn started(channels: ChannelFeatures) -> BootSequencer {
    let mut s = BootSequencer::new(channels);
    assert_eq!(s.step(BootEvent::Completed), BootAction::SetUpCpu);
    assert_eq!(s.step(BootEvent::Completed), BootAction::ReadSevStatus);
    s
}

#[test]
fn status_flags() {
    assert_eq!(detect_features(None), SevFeatures { es_enabled: false, snp_active: false });
    assert_eq!(detect_features(Some(7)), SevFeatures { es_enabled: true, snp_active: true });
    assert_eq!(detect_features(Some(3)), SevFeatures { es_enabled: true, snp_active: false });
    assert_eq!(detect_features(Some(4)), SevFeatures { es_enabled: false, snp_active: true });
    let st = SevStatus { bits: SEV_ES_ENABLED | SNP_ACTIVE };
    assert!(st.contains(SNP_ACTIVE));
    assert!(!SevStatus::empty().contains(SEV_ES_ENABLED));
}

#[test]
fn plain_boot_hands_off_first_compiled_channel() {
    let mut s = started(VSOCK_SERIAL);
    let mut actions = Vec::new();
    let mut push = |a: BootAction| {
        actions.push(a);
        a
    };
    assert_eq!(
        push(s.step(BootEvent::SevStatusRead(Some(0)))),
        BootAction::InitLogging { via_ghcb: false }
    );
    assert_eq!(push(s.step(BootEvent::Completed)), BootAction::CacheBootArgs);
    assert_eq!(push(s.step(BootEvent::ArgsCached(None))), BootAction::BuildFrameAllocator);
    assert_eq!(push(s.step(BootEvent::Completed)), BootAction::BuildPageTables);
    assert_eq!(
        push(s.step(BootEvent::Completed)),
        BootAction::AllocateSharedFrames { count: SHARED_FRAMES }
    );
    assert_eq!(push(s.step(BootEvent::Completed)), BootAction::InitGuestHostHeap);
    assert_eq!(
        push(s.step(BootEvent::Completed)),
        BootAction::InitKernelHeap { pages: KERNEL_HEAP_PAGES }
    );
    assert_eq!(push(s.step(BootEvent::Completed)), BootAction::DiscoverAcpi);
    // Platform device tables missing: not fatal.
    assert_eq!(
        push(s.step(BootEvent::Failed)),
        BootAction::StartRuntime(ChannelType::VirtioVsock)
    );
    assert!(!actions.iter().any(is_snp_step));
    assert_eq!(s.phase(), BootPhase::Running);
    assert_eq!(s.step(BootEvent::Completed), BootAction::Idle);
}

#[test]
fn requested_serial_boot() {
    let mut s = started(VSOCK_SERIAL);
    s.step(BootEvent::SevStatusRead(None));
    s.step(BootEvent::Completed);
    assert_eq!(
        s.step(BootEvent::ArgsCached(Some("serial".to_string()))),
        BootAction::BuildFrameAllocator
    );
    for _ in 0..5 {
        s.step(BootEvent::Completed);
    }
    assert_eq!(s.phase(), BootPhase::DiscoverAcpi);
    assert_eq!(s.step(BootEvent::Completed), BootAction::StartRuntime(ChannelType::Serial));
}

#[test]
fn shared_frames_exhausted_halts_boot() {
    let map = vec![MemoryRegion { start: 0x20_0000, size: 0x20_0000, kind: MemoryKind::Usable }];
    let mut frames = PhysicalMemoryAllocator::init(&map, &vec![], 8).unwrap();
    let mut s = started(VSOCK_SERIAL);
    s.step(BootEvent::SevStatusRead(Some(0)));
    s.step(BootEvent::Completed);
    s.step(BootEvent::ArgsCached(None));
    s.step(BootEvent::Completed);
    let a = s.step(BootEvent::Completed);
    assert_eq!(a, BootAction::AllocateSharedFrames { count: 2 });
    let got: Option<FrameRange> = frames.allocate_contiguous(2);
    assert_eq!(got, None);
    let outcome = if got.is_some() { BootEvent::Completed } else { BootEvent::Failed };
    assert_eq!(s.step(outcome), BootAction::Halt(BootError::OutOfFrames));
    assert_eq!(s.phase(), BootPhase::Halted);
    assert_eq!(s.step(BootEvent::Completed), BootAction::Idle);
}

#[test]
fn missing_snp_pages_halt_before_attestation() {
    let mut s = started(VSOCK_SERIAL);
    assert_eq!(s.step(BootEvent::SevStatusRead(Some(7))), BootAction::InitGhcb { snp: true });
    assert_eq!(s.step(BootEvent::Completed), BootAction::InitLogging { via_ghcb: true });
    assert_eq!(s.step(BootEvent::Completed), BootAction::CacheBootArgs);
    assert_eq!(s.step(BootEvent::ArgsCached(None)), BootAction::LocateSnpPages);
    assert_eq!(s.step(BootEvent::Failed), BootAction::Halt(BootError::MissingSnpPages));
    for _ in 0..20 {
        let a = s.step(BootEvent::Completed);
        assert_eq!(a, BootAction::Idle);
    }
    assert_eq!(s.phase(), BootPhase::Halted);
}

#[test]
fn snp_boot_attests_before_handing_off() {
    let mut s = started(VSOCK_SERIAL);
    s.step(BootEvent::SevStatusRead(Some(7)));
    s.step(BootEvent::Completed);
    s.step(BootEvent::Completed);
    s.step(BootEvent::ArgsCached(None));
    assert_eq!(s.step(BootEvent::Completed), BootAction::BuildFrameAllocator);
    assert_eq!(s.step(BootEvent::Completed), BootAction::BuildPageTables);
    assert_eq!(s.step(BootEvent::Completed), BootAction::ReshareGhcb);
    assert_eq!(s.step(BootEvent::Completed), BootAction::InitSnpPages);
    assert_eq!(s.step(BootEvent::Completed), BootAction::InitMessageEncryptor);
    assert_eq!(s.step(BootEvent::Completed), BootAction::AllocateSharedFrames { count: 2 });
    assert_eq!(s.step(BootEvent::Completed), BootAction::ShareFramesWithHost);
    assert_eq!(s.step(BootEvent::Completed), BootAction::InitGuestHostHeap);
    assert_eq!(s.step(BootEvent::Completed), BootAction::InitKernelHeap { pages: 1 << 19 });
    assert_eq!(s.step(BootEvent::Completed), BootAction::DiscoverAcpi);
    assert_eq!(s.step(BootEvent::Completed), BootAction::GenerateAttestation);
    assert_eq!(s.step(BootEvent::Completed), BootAction::ValidateAttestation);
    assert_eq!(s.step(BootEvent::Completed), BootAction::StartRuntime(ChannelType::VirtioVsock));
    assert_eq!(s.sev_features(), SevFeatures { es_enabled: true, snp_active: true });
}

#[test]
fn invalid_attestation_halts() {
    let mut s = started(VSOCK_SERIAL);
    s.step(BootEvent::SevStatusRead(Some(7)));
    s.step(BootEvent::Completed);
    s.step(BootEvent::Completed);
    s.step(BootEvent::ArgsCached(None));
    for _ in 0..11 {
        s.step(BootEvent::Completed);
    }
    assert_eq!(s.phase(), BootPhase::GenerateAttestation);
    assert_eq!(s.step(BootEvent::Completed), BootAction::ValidateAttestation);
    assert_eq!(s.step(BootEvent::Failed), BootAction::Halt(BootError::InvalidAttestation));
}

#[test]
fn unknown_channel_request_halts() {
    let mut s = started(VSOCK_SERIAL);
    s.step(BootEvent::SevStatusRead(None));
    s.step(BootEvent::Completed);
    s.step(BootEvent::ArgsCached(Some("virtio_console".to_string())));
    for _ in 0..5 {
        s.step(BootEvent::Completed);
    }
    assert_eq!(
        s.step(BootEvent::Completed),
        BootAction::Halt(BootError::Channel(restricted_kernel::ChannelError::NotCompiledIn(
            ChannelType::VirtioConsole
        )))
    );
}

#[test]
fn unexpected_event_halts() {
    let mut s = started(VSOCK_SERIAL);
    assert_eq!(s.step(BootEvent::Completed), BootAction::Halt(BootError::UnexpectedEvent));
}

#[test]
fn failed_page_tables_halt() {
    let mut s = started(VSOCK_SERIAL);
    s.step(BootEvent::SevStatusRead(None));
    s.step(BootEvent::Completed);
    s.step(BootEvent::ArgsCached(None));
    assert_eq!(s.step(BootEvent::Completed), BootAction::BuildPageTables);
    assert_eq!(s.step(BootEvent::Failed), BootAction::Halt(BootError::PageTables));
}

#[test]
fn once_cell_refuses_second_set() {
    let mut c: OnceCell<u32> = OnceCell::new();
    assert!(!c.is_set());
    assert_eq!(c.get(), None);
    assert_eq!(c.set(5), Ok(()));
    assert_eq!(c.set(6), Err(6));
    assert_eq!(c.get(), Some(&5));
}
