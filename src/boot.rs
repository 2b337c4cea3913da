//! The boot sequence, as a state machine: the kernel performs each action the
//! sequencer asks for and reports how it went; the sequencer decides what
//! comes next, and when boot must halt.
use vstd::prelude::*;

use crate::channel::{select_channel, selection, ChannelError, ChannelFeatures, ChannelType};
use crate::sev::{detect_features, features_of, SevFeatures};
use crate::virtual_address_allocator::KERNEL_HEAP_PAGES;

verus! {

/// Large pages to allocate for the memory shared with the host: 4 MiB.
pub const SHARED_FRAMES: u64 = 2;

/// The step whose outcome the sequencer waits for.
#[derive(Clone, Copy, Debug, PartialEq, Eq, Structural)]
pub enum BootPhase {
    NotStarted,
    SetUpCpu,
    ReadSevStatus,
    InitGhcb,
    InitLogging,
    CacheBootArgs,
    LocateSnpPages,
    BuildFrameAllocator,
    BuildPageTables,
    ReshareGhcb,
    InitSnpPages,
    InitMessageEncryptor,
    AllocateSharedFrames,
    ShareFramesWithHost,
    InitGuestHostHeap,
    InitKernelHeap,
    DiscoverAcpi,
    GenerateAttestation,
    ValidateAttestation,
    /// Boot handed over to the runtime.
    Running,
    /// Boot stopped on a fatal error.
    Halted,
}

/// Why boot halted.
#[derive(Clone, Copy, Debug, PartialEq, Eq, Structural)]
pub enum BootError {
    CpuSetup,
    GhcbInit,
    Logging,
    BootArgs,
    /// Secure nested paging is active but its platform pages were not found.
    MissingSnpPages,
    FrameAllocator,
    PageTables,
    GhcbReshare,
    SnpPagesInit,
    MessageEncryptor,
    /// No free run of frames for the memory shared with the host.
    OutOfFrames,
    PageStateChange,
    GuestHostHeap,
    KernelHeap,
    Attestation,
    InvalidAttestation,
    Channel(ChannelError),
    /// An outcome that does not belong to the step in progress.
    UnexpectedEvent,
}

/// What the kernel must do next.
#[derive(Clone, Copy, Debug, PartialEq, Eq, Structural)]
pub enum BootAction {
    /// Enable extended CPU features, descriptor and interrupt tables.
    SetUpCpu,
    /// Read the confidential-computing status register.
    ReadSevStatus,
    /// Set up the hypervisor communication block.
    InitGhcb { snp: bool },
    /// Start logging, through the communication block if there is one.
    InitLogging { via_ghcb: bool },
    /// Copy the boot arguments out of the boot parameters.
    CacheBootArgs,
    /// Find the platform measurement pages in the boot parameters.
    LocateSnpPages,
    /// Build the frame allocator from the memory map of the boot parameters.
    BuildFrameAllocator,
    /// Build the kernel page tables and switch to them.
    BuildPageTables,
    /// Announce the communication block to the hypervisor again.
    ReshareGhcb,
    /// Set up the platform measurement pages.
    InitSnpPages,
    /// Set up encryption of messages to the platform.
    InitMessageEncryptor,
    /// Allocate `count` contiguous frames for memory shared with the host.
    AllocateSharedFrames { count: u64 },
    /// Mark the shared frames as host-shared in the platform page state.
    ShareFramesWithHost,
    /// Build the heap over the shared frames.
    InitGuestHostHeap,
    /// Reserve `pages` large pages and build the kernel heap over them.
    InitKernelHeap { pages: u64 },
    /// Look for the platform device tables (failure is not fatal).
    DiscoverAcpi,
    /// Ask the platform for an attestation report.
    GenerateAttestation,
    /// Check the structure of the attestation report.
    ValidateAttestation,
    /// Build the channel of the given kind and hand over to the runtime.
    StartRuntime(ChannelType),
    /// Stop the machine.
    Halt(BootError),
    /// Nothing left to do.
    Idle,
}

/// How the last action went.
pub enum BootEvent {
    /// The action succeeded.
    Completed,
    /// The action failed.
    Failed,
    /// The status register was read; `None` when the platform has none.
    SevStatusRead(Option<u64>),
    /// The boot arguments were cached; the channel kind they name, if any.
    ArgsCached(Option<String>),
}

/// The mathematical form of an event.
pub enum EventModel {
    Completed,
    Failed,
    SevStatusRead(Option<u64>),
    ArgsCached(Option<Seq<char>>),
}

impl View for BootEvent {
    type V = EventModel;

    open spec fn view(&self) -> EventModel {
        match self {
            BootEvent::Completed => EventModel::Completed,
            BootEvent::Failed => EventModel::Failed,
            BootEvent::SevStatusRead(raw) => EventModel::SevStatusRead(*raw),
            BootEvent::ArgsCached(req) => EventModel::ArgsCached(
                match req {
                    Some(s) => Some(s@),
                    None => None,
                },
            ),
        }
    }
}

/// The mathematical form of the sequencer's state.
pub struct BootModel {
    pub phase: BootPhase,
    pub sev: SevFeatures,
    pub channels: ChannelFeatures,
    pub requested: Option<Seq<char>>,
    pub acpi_available: bool,
}

/// The phase that waits for the outcome of action `a`.
pub open spec fn phase_of(a: BootAction, current: BootPhase) -> BootPhase {
    match a {
        BootAction::SetUpCpu => BootPhase::SetUpCpu,
        BootAction::ReadSevStatus => BootPhase::ReadSevStatus,
        BootAction::InitGhcb { .. } => BootPhase::InitGhcb,
        BootAction::InitLogging { .. } => BootPhase::InitLogging,
        BootAction::CacheBootArgs => BootPhase::CacheBootArgs,
        BootAction::LocateSnpPages => BootPhase::LocateSnpPages,
        BootAction::BuildFrameAllocator => BootPhase::BuildFrameAllocator,
        BootAction::BuildPageTables => BootPhase::BuildPageTables,
        BootAction::ReshareGhcb => BootPhase::ReshareGhcb,
        BootAction::InitSnpPages => BootPhase::InitSnpPages,
        BootAction::InitMessageEncryptor => BootPhase::InitMessageEncryptor,
        BootAction::AllocateSharedFrames { .. } => BootPhase::AllocateSharedFrames,
        BootAction::ShareFramesWithHost => BootPhase::ShareFramesWithHost,
        BootAction::InitGuestHostHeap => BootPhase::InitGuestHostHeap,
        BootAction::InitKernelHeap { .. } => BootPhase::InitKernelHeap,
        BootAction::DiscoverAcpi => BootPhase::DiscoverAcpi,
        BootAction::GenerateAttestation => BootPhase::GenerateAttestation,
        BootAction::ValidateAttestation => BootPhase::ValidateAttestation,
        BootAction::StartRuntime(_) => BootPhase::Running,
        BootAction::Halt(_) => BootPhase::Halted,
        BootAction::Idle => current,
    }
}

/// Emits action `a` from state `s`.
pub open spec fn emit(s: BootModel, a: BootAction) -> (BootModel, BootAction) {
    (BootModel { phase: phase_of(a, s.phase), ..s }, a)
}

/// For a step that either completes or fails: go on with `next`, or halt with
/// `err`.
pub open spec fn on_outcome(s: BootModel, e: EventModel, next: BootAction, err: BootError) -> (
    BootModel,
    BootAction,
) {
    match e {
        EventModel::Completed => emit(s, next),
        EventModel::Failed => emit(s, BootAction::Halt(err)),
        _ => emit(s, BootAction::Halt(BootError::UnexpectedEvent)),
    }
}

/// The action that builds the channel and hands over, or halts when no
/// channel can be chosen.
pub open spec fn channel_action(s: BootModel) -> BootAction {
    match selection(s.channels, s.requested, s.acpi_available) {
        Ok(k) => BootAction::StartRuntime(k),
        Err(e) => BootAction::Halt(BootError::Channel(e)),
    }
}

pub open spec fn after_page_tables(s: BootModel) -> BootAction {
    if s.sev.es_enabled {
        BootAction::ReshareGhcb
    } else {
        BootAction::AllocateSharedFrames { count: SHARED_FRAMES }
    }
}

pub open spec fn after_reshare(s: BootModel) -> BootAction {
    if s.sev.snp_active {
        BootAction::InitSnpPages
    } else {
        BootAction::AllocateSharedFrames { count: SHARED_FRAMES }
    }
}

pub open spec fn after_shared_frames(s: BootModel) -> BootAction {
    if s.sev.snp_active {
        BootAction::ShareFramesWithHost
    } else {
        BootAction::InitGuestHostHeap
    }
}

pub open spec fn after_acpi(s: BootModel) -> BootAction {
    if s.sev.snp_active {
        BootAction::GenerateAttestation
    } else {
        channel_action(s)
    }
}

/// One step of the boot sequence: from the state and the outcome of the last
/// action, the next state and the next action.
pub open spec fn transition(s: BootModel, e: EventModel) -> (BootModel, BootAction) {
    match s.phase {
        BootPhase::NotStarted => emit(s, BootAction::SetUpCpu),
        BootPhase::SetUpCpu => on_outcome(s, e, BootAction::ReadSevStatus, BootError::CpuSetup),
        BootPhase::ReadSevStatus => match e {
            EventModel::SevStatusRead(raw) => {
                let f = features_of(raw);
                let s2 = BootModel { sev: f, ..s };
                if f.es_enabled {
                    emit(s2, BootAction::InitGhcb { snp: f.snp_active })
                } else {
                    emit(s2, BootAction::InitLogging { via_ghcb: false })
                }
            },
            _ => emit(s, BootAction::Halt(BootError::UnexpectedEvent)),
        },
        BootPhase::InitGhcb => on_outcome(
            s,
            e,
            BootAction::InitLogging { via_ghcb: true },
            BootError::GhcbInit,
        ),
        BootPhase::InitLogging => on_outcome(s, e, BootAction::CacheBootArgs, BootError::Logging),
        BootPhase::CacheBootArgs => match e {
            EventModel::ArgsCached(req) => {
                let s2 = BootModel { requested: req, ..s };
                if s.sev.snp_active {
                    emit(s2, BootAction::LocateSnpPages)
                } else {
                    emit(s2, BootAction::BuildFrameAllocator)
                }
            },
            EventModel::Failed => emit(s, BootAction::Halt(BootError::BootArgs)),
            _ => emit(s, BootAction::Halt(BootError::UnexpectedEvent)),
        },
        BootPhase::LocateSnpPages => on_outcome(
            s,
            e,
            BootAction::BuildFrameAllocator,
            BootError::MissingSnpPages,
        ),
        BootPhase::BuildFrameAllocator => on_outcome(
            s,
            e,
            BootAction::BuildPageTables,
            BootError::FrameAllocator,
        ),
        BootPhase::BuildPageTables => on_outcome(
            s,
            e,
            after_page_tables(s),
            BootError::PageTables,
        ),
        BootPhase::ReshareGhcb => on_outcome(s, e, after_reshare(s), BootError::GhcbReshare),
        BootPhase::InitSnpPages => on_outcome(
            s,
            e,
            BootAction::InitMessageEncryptor,
            BootError::SnpPagesInit,
        ),
        BootPhase::InitMessageEncryptor => on_outcome(
            s,
            e,
            BootAction::AllocateSharedFrames { count: SHARED_FRAMES },
            BootError::MessageEncryptor,
        ),
        BootPhase::AllocateSharedFrames => on_outcome(
            s,
            e,
            after_shared_frames(s),
            BootError::OutOfFrames,
        ),
        BootPhase::ShareFramesWithHost => on_outcome(
            s,
            e,
            BootAction::InitGuestHostHeap,
            BootError::PageStateChange,
        ),
        BootPhase::InitGuestHostHeap => on_outcome(
            s,
            e,
            BootAction::InitKernelHeap { pages: KERNEL_HEAP_PAGES },
            BootError::GuestHostHeap,
        ),
        BootPhase::InitKernelHeap => on_outcome(
            s,
            e,
            BootAction::DiscoverAcpi,
            BootError::KernelHeap,
        ),
        BootPhase::DiscoverAcpi => match e {
            EventModel::Completed => {
                let s2 = BootModel { acpi_available: true, ..s };
                emit(s2, after_acpi(s2))
            },
            EventModel::Failed => {
                let s2 = BootModel { acpi_available: false, ..s };
                emit(s2, after_acpi(s2))
            },
            _ => emit(s, BootAction::Halt(BootError::UnexpectedEvent)),
        },
        BootPhase::GenerateAttestation => on_outcome(
            s,
            e,
            BootAction::ValidateAttestation,
            BootError::Attestation,
        ),
        BootPhase::ValidateAttestation => on_outcome(
            s,
            e,
            channel_action(s),
            BootError::InvalidAttestation,
        ),
        BootPhase::Running => emit(s, BootAction::Idle),
        BootPhase::Halted => emit(s, BootAction::Idle),
    }
}

/// The actions that a run of outcomes leads to, one per outcome.
pub open spec fn run_actions(s: BootModel, events: Seq<EventModel>) -> Seq<BootAction>
    decreases events.len(),
{
    if events.len() == 0 {
        seq![]
    } else {
        let (s2, a) = transition(s, events[0]);
        seq![a] + run_actions(s2, events.drop_first())
    }
}

/// Steps that exist only for secure nested paging: locating and setting up
/// its pages, page-state sharing, and attestation reports.
pub open spec fn is_snp_step(a: BootAction) -> bool {
    match a {
        BootAction::InitGhcb { snp } => snp,
        BootAction::LocateSnpPages => true,
        BootAction::InitSnpPages => true,
        BootAction::InitMessageEncryptor => true,
        BootAction::ShareFramesWithHost => true,
        BootAction::GenerateAttestation => true,
        BootAction::ValidateAttestation => true,
        _ => false,
    }
}

pub open spec fn is_snp_phase(p: BootPhase) -> bool {
    match p {
        BootPhase::LocateSnpPages => true,
        BootPhase::InitSnpPages => true,
        BootPhase::InitMessageEncryptor => true,
        BootPhase::ShareFramesWithHost => true,
        BootPhase::GenerateAttestation => true,
        BootPhase::ValidateAttestation => true,
        _ => false,
    }
}

/// Phases in which the status register has been read.
pub open spec fn sev_known(p: BootPhase) -> bool {
    !(p == BootPhase::NotStarted || p == BootPhase::SetUpCpu || p == BootPhase::ReadSevStatus)
}

/// Steps that read the boot parameters, which are valid only under the
/// bootloader's mapping.
pub open spec fn reads_boot_params(a: BootAction) -> bool {
    match a {
        BootAction::CacheBootArgs => true,
        BootAction::LocateSnpPages => true,
        BootAction::BuildFrameAllocator => true,
        _ => false,
    }
}

/// Phases from the switch to the kernel's page tables on.
pub open spec fn paging_switched(p: BootPhase) -> bool {
    match p {
        BootPhase::NotStarted => false,
        BootPhase::SetUpCpu => false,
        BootPhase::ReadSevStatus => false,
        BootPhase::InitGhcb => false,
        BootPhase::InitLogging => false,
        BootPhase::CacheBootArgs => false,
        BootPhase::LocateSnpPages => false,
        BootPhase::BuildFrameAllocator => false,
        _ => true,
    }
}

proof fn lemma_run_unfold(s: BootModel, events: Seq<EventModel>)
    requires
        events.len() > 0,
    ensures
        run_actions(s, events) == seq![transition(s, events[0]).1] + run_actions(
            transition(s, events[0]).0,
            events.drop_first(),
        ),
        run_actions(s, events).len() == events.len(),
{
    lemma_run_len(transition(s, events[0]).0, events.drop_first());
}

proof fn lemma_run_len(s: BootModel, events: Seq<EventModel>)
    ensures
        run_actions(s, events).len() == events.len(),
    decreases events.len(),
{
    if events.len() > 0 {
        lemma_run_len(transition(s, events[0]).0, events.drop_first());
    }
}

/// Once the status register has been read and reports secure nested paging
/// inactive, no later step is one of secure nested paging: the features are
/// never changed after detection.
pub proof fn lemma_no_snp_steps_without_snp(s: BootModel, events: Seq<EventModel>)
    requires
        sev_known(s.phase),
        !s.sev.snp_active,
        !is_snp_phase(s.phase),
    ensures
        forall|i: int| 0 <= i < events.len() ==> !is_snp_step(#[trigger] run_actions(s, events)[i]),
    decreases events.len(),
{
    if events.len() > 0 {
        let (s2, a) = transition(s, events[0]);
        assert(s2.sev == s.sev);
        assert(!is_snp_step(a));
        lemma_no_snp_steps_without_snp(s2, events.drop_first());
        lemma_run_unfold(s, events);
        let r = run_actions(s, events);
        assert forall|i: int| 0 <= i < events.len() implies !is_snp_step(#[trigger] r[i]) by {
            if i > 0 {
                assert(r[i] == run_actions(s2, events.drop_first())[i - 1]);
            }
        }
    }
}

/// A status read that reports secure nested paging inactive is followed by no
/// step of secure nested paging, whatever the later outcomes.
pub proof fn lemma_snp_inactive_skips_snp_steps(
    s: BootModel,
    raw: Option<u64>,
    events: Seq<EventModel>,
)
    requires
        s.phase == BootPhase::ReadSevStatus,
        !features_of(raw).snp_active,
    ensures
        forall|i: int|
            0 <= i <= events.len() ==> !is_snp_step(
                #[trigger] run_actions(s, seq![EventModel::SevStatusRead(raw)] + events)[i],
            ),
{
    let all = seq![EventModel::SevStatusRead(raw)] + events;
    let (s2, a) = transition(s, all[0]);
    assert(all.drop_first() == events);
    lemma_run_unfold(s, all);
    lemma_no_snp_steps_without_snp(s2, events);
    let r = run_actions(s, all);
    assert forall|i: int| 0 <= i <= events.len() implies !is_snp_step(#[trigger] r[i]) by {
        if i > 0 {
            assert(r[i] == run_actions(s2, events)[i - 1]);
        }
    }
}

/// After the switch to the kernel's page tables no step reads the boot
/// parameters again: everything needed from them is taken before.
pub proof fn lemma_boot_params_read_before_switch(s: BootModel, events: Seq<EventModel>)
    requires
        paging_switched(s.phase),
    ensures
        forall|i: int|
            0 <= i < events.len() ==> !reads_boot_params(#[trigger] run_actions(s, events)[i]),
    decreases events.len(),
{
    if events.len() > 0 {
        let (s2, a) = transition(s, events[0]);
        assert(!reads_boot_params(a));
        assert(paging_switched(s2.phase));
        lemma_boot_params_read_before_switch(s2, events.drop_first());
        lemma_run_unfold(s, events);
        let r = run_actions(s, events);
        assert forall|i: int| 0 <= i < events.len() implies !reads_boot_params(#[trigger] r[i]) by {
            if i > 0 {
                assert(r[i] == run_actions(s2, events.drop_first())[i - 1]);
            }
        }
    }
}

/// A halt is final: nothing is done after it.
pub proof fn lemma_halt_is_final(s: BootModel, events: Seq<EventModel>)
    requires
        s.phase == BootPhase::Halted,
    ensures
        forall|i: int| 0 <= i < events.len() ==> #[trigger] run_actions(s, events)[i] == BootAction::Idle,
    decreases events.len(),
{
    if events.len() > 0 {
        let (s2, a) = transition(s, events[0]);
        lemma_halt_is_final(s2, events.drop_first());
        lemma_run_unfold(s, events);
        let r = run_actions(s, events);
        assert forall|i: int| 0 <= i < events.len() implies #[trigger] r[i] == BootAction::Idle by {
            if i > 0 {
                assert(r[i] == run_actions(s2, events.drop_first())[i - 1]);
            }
        }
    }
}

/// The sequencer.
pub struct BootSequencer {
    phase: BootPhase,
    sev: SevFeatures,
    channels: ChannelFeatures,
    requested: Option<String>,
    acpi_available: bool,
}

impl View for BootSequencer {
    type V = BootModel;

    closed spec fn view(&self) -> BootModel {
        BootModel {
            phase: self.phase,
            sev: self.sev,
            channels: self.channels,
            requested: match self.requested {
                Some(s) => Some(s@),
                None => None,
            },
            acpi_available: self.acpi_available,
        }
    }
}

impl BootSequencer {
    /// A sequencer for a build that includes the transports `channels`. Its
    /// first step, whatever the event, asks for the CPU set-up.
    pub fn new(channels: ChannelFeatures) -> (r: BootSequencer)
        ensures
            r@ == (BootModel {
                phase: BootPhase::NotStarted,
                sev: SevFeatures { es_enabled: false, snp_active: false },
                channels,
                requested: None,
                acpi_available: false,
            }),
    {
        BootSequencer {
            phase: BootPhase::NotStarted,
            sev: SevFeatures { es_enabled: false, snp_active: false },
            channels,
            requested: None,
            acpi_available: false,
        }
    }

    /// The step whose outcome the sequencer waits for.
    pub fn phase(&self) -> (r: BootPhase)
        ensures
            r == self@.phase,
    {
        self.phase
    }

    /// The features detected at boot.
    pub fn sev_features(&self) -> (r: SevFeatures)
        ensures
            r == self@.sev,
    {
        self.sev
    }

    fn emit(&mut self, a: BootAction) -> (r: BootAction)
        ensures
            (final(self)@, r) == emit(old(self)@, a),
    {
        self.phase = match a {
            BootAction::SetUpCpu => BootPhase::SetUpCpu,
            BootAction::ReadSevStatus => BootPhase::ReadSevStatus,
            BootAction::InitGhcb { .. } => BootPhase::InitGhcb,
            BootAction::InitLogging { .. } => BootPhase::InitLogging,
            BootAction::CacheBootArgs => BootPhase::CacheBootArgs,
            BootAction::LocateSnpPages => BootPhase::LocateSnpPages,
            BootAction::BuildFrameAllocator => BootPhase::BuildFrameAllocator,
            BootAction::BuildPageTables => BootPhase::BuildPageTables,
            BootAction::ReshareGhcb => BootPhase::ReshareGhcb,
            BootAction::InitSnpPages => BootPhase::InitSnpPages,
            BootAction::InitMessageEncryptor => BootPhase::InitMessageEncryptor,
            BootAction::AllocateSharedFrames { .. } => BootPhase::AllocateSharedFrames,
            BootAction::ShareFramesWithHost => BootPhase::ShareFramesWithHost,
            BootAction::InitGuestHostHeap => BootPhase::InitGuestHostHeap,
            BootAction::InitKernelHeap { .. } => BootPhase::InitKernelHeap,
            BootAction::DiscoverAcpi => BootPhase::DiscoverAcpi,
            BootAction::GenerateAttestation => BootPhase::GenerateAttestation,
            BootAction::ValidateAttestation => BootPhase::ValidateAttestation,
            BootAction::StartRuntime(_) => BootPhase::Running,
            BootAction::Halt(_) => BootPhase::Halted,
            BootAction::Idle => self.phase,
        };
        a
    }

    fn on_outcome(&mut self, e: &BootEvent, next: BootAction, err: BootError) -> (r: BootAction)
        ensures
            (final(self)@, r) == on_outcome(old(self)@, e@, next, err),
    {
        match e {
            BootEvent::Completed => self.emit(next),
            BootEvent::Failed => self.emit(BootAction::Halt(err)),
            _ => self.emit(BootAction::Halt(BootError::UnexpectedEvent)),
        }
    }

    fn channel_action(&self) -> (r: BootAction)
        ensures
            r == channel_action(self@),
    {
        let requested = match &self.requested {
            Some(s) => Some(s.as_str()),
            None => None,
        };
        match select_channel(&self.channels, requested, self.acpi_available) {
            Ok(k) => BootAction::StartRuntime(k),
            Err(e) => BootAction::Halt(BootError::Channel(e)),
        }
    }

    fn after_acpi(&self) -> (r: BootAction)
        ensures
            r == after_acpi(self@),
    {
        if self.sev.snp_active {
            BootAction::GenerateAttestation
        } else {
            self.channel_action()
        }
    }

    /// Takes the outcome of the last action and returns the next action.
    pub fn step(&mut self, event: BootEvent) -> (r: BootAction)
        ensures
            (final(self)@, r) == transition(old(self)@, event@),
    {
        match self.phase {
            BootPhase::NotStarted => self.emit(BootAction::SetUpCpu),
            BootPhase::SetUpCpu => self.on_outcome(
                &event,
                BootAction::ReadSevStatus,
                BootError::CpuSetup,
            ),
            BootPhase::ReadSevStatus => match event {
                BootEvent::SevStatusRead(raw) => {
                    let f = detect_features(raw);
                    self.sev = f;
                    if f.es_enabled {
                        self.emit(BootAction::InitGhcb { snp: f.snp_active })
                    } else {
                        self.emit(BootAction::InitLogging { via_ghcb: false })
                    }
                },
                _ => self.emit(BootAction::Halt(BootError::UnexpectedEvent)),
            },
            BootPhase::InitGhcb => self.on_outcome(
                &event,
                BootAction::InitLogging { via_ghcb: true },
                BootError::GhcbInit,
            ),
            BootPhase::InitLogging => self.on_outcome(
                &event,
                BootAction::CacheBootArgs,
                BootError::Logging,
            ),
            BootPhase::CacheBootArgs => match event {
                BootEvent::ArgsCached(req) => {
                    self.requested = req;
                    if self.sev.snp_active {
                        self.emit(BootAction::LocateSnpPages)
                    } else {
                        self.emit(BootAction::BuildFrameAllocator)
                    }
                },
                BootEvent::Failed => self.emit(BootAction::Halt(BootError::BootArgs)),
                _ => self.emit(BootAction::Halt(BootError::UnexpectedEvent)),
            },
            BootPhase::LocateSnpPages => self.on_outcome(
                &event,
                BootAction::BuildFrameAllocator,
                BootError::MissingSnpPages,
            ),
            BootPhase::BuildFrameAllocator => self.on_outcome(
                &event,
                BootAction::BuildPageTables,
                BootError::FrameAllocator,
            ),
            BootPhase::BuildPageTables => {
                let next = if self.sev.es_enabled {
                    BootAction::ReshareGhcb
                } else {
                    BootAction::AllocateSharedFrames { count: SHARED_FRAMES }
                };
                self.on_outcome(&event, next, BootError::PageTables)
            },
            BootPhase::ReshareGhcb => {
                let next = if self.sev.snp_active {
                    BootAction::InitSnpPages
                } else {
                    BootAction::AllocateSharedFrames { count: SHARED_FRAMES }
                };
                self.on_outcome(&event, next, BootError::GhcbReshare)
            },
            BootPhase::InitSnpPages => self.on_outcome(
                &event,
                BootAction::InitMessageEncryptor,
                BootError::SnpPagesInit,
            ),
            BootPhase::InitMessageEncryptor => self.on_outcome(
                &event,
                BootAction::AllocateSharedFrames { count: SHARED_FRAMES },
                BootError::MessageEncryptor,
            ),
            BootPhase::AllocateSharedFrames => {
                let next = if self.sev.snp_active {
                    BootAction::ShareFramesWithHost
                } else {
                    BootAction::InitGuestHostHeap
                };
                self.on_outcome(&event, next, BootError::OutOfFrames)
            },
            BootPhase::ShareFramesWithHost => self.on_outcome(
                &event,
                BootAction::InitGuestHostHeap,
                BootError::PageStateChange,
            ),
            BootPhase::InitGuestHostHeap => self.on_outcome(
                &event,
                BootAction::InitKernelHeap { pages: KERNEL_HEAP_PAGES },
                BootError::GuestHostHeap,
            ),
            BootPhase::InitKernelHeap => self.on_outcome(
                &event,
                BootAction::DiscoverAcpi,
                BootError::KernelHeap,
            ),
            BootPhase::DiscoverAcpi => match event {
                BootEvent::Completed => {
                    self.acpi_available = true;
                    let next = self.after_acpi();
                    self.emit(next)
                },
                BootEvent::Failed => {
                    self.acpi_available = false;
                    let next = self.after_acpi();
                    self.emit(next)
                },
                _ => self.emit(BootAction::Halt(BootError::UnexpectedEvent)),
            },
            BootPhase::GenerateAttestation => self.on_outcome(
                &event,
                BootAction::ValidateAttestation,
                BootError::Attestation,
            ),
            BootPhase::ValidateAttestation => {
                let next = self.channel_action();
                self.on_outcome(&event, next, BootError::InvalidAttestation)
            },
            BootPhase::Running => self.emit(BootAction::Idle),
            BootPhase::Halted => self.emit(BootAction::Idle),
        }
    }
}

} // verus!
