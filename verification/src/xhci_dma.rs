//! DMA storage of an xHCI controller whose requester is not remapped.
//!
//! Physical addresses are handed to the device only through a window that was
//! established for one requester. The window rests on what its caller observed
//! of the hardware, never on a missing firmware table.

use crate::pci::PciAddress;
use crate::seal::{flag, Sealer};
use vstd::prelude::*;

verus! {

pub const PAGE_SIZE: usize = 4096;

pub const XHCI_BASE_REGION_COUNT: usize = 4;

pub const FIXED_REGION_CAPACITY: usize = 6;

pub const MAXIMUM_SCRATCHPAD_BUFFERS: u16 = 1_023;

pub const IDENTITY_ROOT_DOMAIN: u64 = 0x5848_4349_4944_4d41;

pub const ARENA_ROOT_DOMAIN: u64 = 0x5848_4349_4152_454e;

#[derive(Clone, Copy, Debug, PartialEq, Eq, Structural)]
pub struct IdentityDmaObservation {
    pub x86_cache_coherent: bool,
    pub requester_remapping_active: bool,
}

#[derive(Clone, Copy, Debug, PartialEq, Eq, Structural)]
pub enum IdentityDmaError {
    InvalidGeneration,
    InvalidEvidenceRoot,
    UnalignedPhysicalAperture,
    EmptyPhysicalAperture,
    PhysicalApertureOverflow,
    CpuApertureOverflow,
    DeviceLimitBelowAperture,
    X86CoherencyUnproven,
    ActiveRequesterRemapping,
}

/// One requester's leave to use physical addresses directly. Not copied: whoever
/// holds it may build one arena in it.
#[derive(Debug, PartialEq, Eq)]
pub struct IdentityDmaWindow {
    pub device: PciAddress,
    pub physical_start: u64,
    pub physical_end: u64,
    pub direct_map_base: usize,
    pub cpu_start: usize,
    pub cpu_end: usize,
    pub device_address_limit: u64,
    pub generation: u32,
    pub evidence_root: u64,
    pub proof_root: u64,
    pub x86_cache_coherent: bool,
    pub requester_remapping_active: bool,
}

/// A root is never zero.
#[verifier::allow_in_spec]
pub fn canonical_root(root: u64, domain: u64) -> u64
    returns
        (if root == 0 {
            domain
        } else {
            root
        }),
{
    if root == 0 {
        domain
    } else {
        root
    }
}

/// What a requester claims of the memory that it may use.
#[derive(Clone, Copy, Debug, PartialEq, Eq, Structural)]
pub struct IdentityClaim {
    pub device: PciAddress,
    pub physical_start: u64,
    pub physical_bytes: u64,
    pub direct_map_base: usize,
    pub device_address_limit: u64,
    pub generation: u32,
    pub evidence_root: u64,
    pub observation: IdentityDmaObservation,
}

impl IdentityClaim {
    /// What a claim is refused for.
    pub open spec fn fault(self) -> Option<IdentityDmaError> {
        let end = self.physical_start + self.physical_bytes;
        if self.generation == 0 {
            Some(IdentityDmaError::InvalidGeneration)
        } else if self.evidence_root == 0 {
            Some(IdentityDmaError::InvalidEvidenceRoot)
        } else if self.physical_start % 4096 != 0 || self.physical_bytes % 4096 != 0 {
            Some(IdentityDmaError::UnalignedPhysicalAperture)
        } else if self.physical_bytes == 0 {
            Some(IdentityDmaError::EmptyPhysicalAperture)
        } else if end > u64::MAX {
            Some(IdentityDmaError::PhysicalApertureOverflow)
        } else if end - 1 > self.device_address_limit {
            Some(IdentityDmaError::DeviceLimitBelowAperture)
        } else if end > usize::MAX || self.direct_map_base + end > usize::MAX
            || self.direct_map_base + self.physical_start == 0 {
            Some(IdentityDmaError::CpuApertureOverflow)
        } else if !self.observation.x86_cache_coherent {
            Some(IdentityDmaError::X86CoherencyUnproven)
        } else if self.observation.requester_remapping_active {
            Some(IdentityDmaError::ActiveRequesterRemapping)
        } else {
            None
        }
    }

    pub open spec fn words(self) -> Seq<u64> {
        seq![
            self.device.bus as u64,
            self.device.slot as u64,
            self.device.function as u64,
            self.physical_start,
            (self.physical_start + self.physical_bytes) as u64,
            self.device_address_limit,
            self.generation as u64,
        ]
    }

    /// The window of a sound claim.
    pub open spec fn window(self) -> IdentityDmaWindow {
        let end = self.physical_start + self.physical_bytes;
        IdentityDmaWindow {
            device: self.device,
            physical_start: self.physical_start,
            physical_end: end as u64,
            direct_map_base: self.direct_map_base,
            cpu_start: (self.direct_map_base + self.physical_start) as usize,
            cpu_end: (self.direct_map_base + end) as usize,
            device_address_limit: self.device_address_limit,
            generation: self.generation,
            evidence_root: self.evidence_root,
            proof_root: canonical_root(
                crate::seal::seal_of(self.evidence_root ^ IDENTITY_ROOT_DOMAIN, self.words()),
                IDENTITY_ROOT_DOMAIN,
            ),
            x86_cache_coherent: true,
            requester_remapping_active: false,
        }
    }
}

impl IdentityDmaWindow {
    /// Establishes the window of one requester.
    ///
    /// The caller answers for the hardware: the device has no active DMA
    /// translation, every byte of the aperture has exactly one writable CPU
    /// alias at `direct_map_base` plus its physical address, and the platform
    /// keeps CPU and device coherent. The observation must describe the present
    /// state.
    pub fn establish(
        device: PciAddress,
        physical_start: u64,
        physical_bytes: u64,
        direct_map_base: usize,
        device_address_limit: u64,
        generation: u32,
        evidence_root: u64,
        observation: IdentityDmaObservation,
    ) -> (result: Result<Self, IdentityDmaError>)
        ensures
            ({
                let claim = IdentityClaim {
                    device,
                    physical_start,
                    physical_bytes,
                    direct_map_base,
                    device_address_limit,
                    generation,
                    evidence_root,
                    observation,
                };
                result == match claim.fault() {
                    Some(error) => Err(error),
                    None => Ok::<IdentityDmaWindow, IdentityDmaError>(claim.window()),
                }
            }),
    {
        let claim = IdentityClaim {
            device,
            physical_start,
            physical_bytes,
            direct_map_base,
            device_address_limit,
            generation,
            evidence_root,
            observation,
        };
        if claim.generation == 0 {
            return Err(IdentityDmaError::InvalidGeneration);
        }
        if claim.evidence_root == 0 {
            return Err(IdentityDmaError::InvalidEvidenceRoot);
        }
        if claim.physical_start % 4096 != 0 || claim.physical_bytes % 4096 != 0 {
            return Err(IdentityDmaError::UnalignedPhysicalAperture);
        }
        if claim.physical_bytes == 0 {
            return Err(IdentityDmaError::EmptyPhysicalAperture);
        }
        let physical_end: u64 = match claim.physical_start.checked_add(claim.physical_bytes) {
            None => {
                return Err(IdentityDmaError::PhysicalApertureOverflow);
            },
            Some(end) => end,
        };
        if physical_end - 1 > claim.device_address_limit {
            return Err(IdentityDmaError::DeviceLimitBelowAperture);
        }
        if physical_end > usize::MAX as u64 {
            return Err(IdentityDmaError::CpuApertureOverflow);
        }
        let cpu_end: usize = match claim.direct_map_base.checked_add(physical_end as usize) {
            None => {
                return Err(IdentityDmaError::CpuApertureOverflow);
            },
            Some(end) => end,
        };
        let cpu_start: usize = claim.direct_map_base + claim.physical_start as usize;
        if cpu_start == 0 {
            return Err(IdentityDmaError::CpuApertureOverflow);
        }
        if !claim.observation.x86_cache_coherent {
            return Err(IdentityDmaError::X86CoherencyUnproven);
        }
        if claim.observation.requester_remapping_active {
            return Err(IdentityDmaError::ActiveRequesterRemapping);
        }
        let root: u64 = Sealer::new(claim.evidence_root ^ IDENTITY_ROOT_DOMAIN).word(
            claim.device.bus as u64,
        ).word(claim.device.slot as u64).word(claim.device.function as u64).word(
            claim.physical_start,
        ).word(physical_end).word(claim.device_address_limit).word(
            claim.generation as u64,
        ).root();
        Ok(
            IdentityDmaWindow {
                device: claim.device,
                physical_start: claim.physical_start,
                physical_end,
                direct_map_base: claim.direct_map_base,
                cpu_start,
                cpu_end,
                device_address_limit: claim.device_address_limit,
                generation: claim.generation,
                evidence_root: claim.evidence_root,
                proof_root: canonical_root(root, IDENTITY_ROOT_DOMAIN),
                x86_cache_coherent: true,
                requester_remapping_active: false,
            },
        )
    }

    #[verifier::allow_in_spec]
    pub fn device(&self) -> PciAddress
        returns
            self.device,
    {
        self.device
    }

    #[verifier::allow_in_spec]
    pub fn physical_bounds(&self) -> (u64, u64)
        returns
            (self.physical_start, self.physical_end),
    {
        (self.physical_start, self.physical_end)
    }

    #[verifier::allow_in_spec]
    pub fn cpu_bounds(&self) -> (usize, usize)
        returns
            (self.cpu_start, self.cpu_end),
    {
        (self.cpu_start, self.cpu_end)
    }

    #[verifier::allow_in_spec]
    pub fn device_address_limit(&self) -> u64
        returns
            self.device_address_limit,
    {
        self.device_address_limit
    }

    #[verifier::allow_in_spec]
    pub fn generation(&self) -> u32
        returns
            self.generation,
    {
        self.generation
    }

    #[verifier::allow_in_spec]
    pub fn evidence_root(&self) -> u64
        returns
            self.evidence_root,
    {
        self.evidence_root
    }

    #[verifier::allow_in_spec]
    pub fn proof_root(&self) -> u64
        returns
            self.proof_root,
    {
        self.proof_root
    }

    #[verifier::allow_in_spec]
    pub fn x86_cache_coherent(&self) -> bool
        returns
            self.x86_cache_coherent,
    {
        self.x86_cache_coherent
    }

    #[verifier::allow_in_spec]
    pub fn requester_remapping_inactive(&self) -> bool
        returns
            (!self.requester_remapping_active),
    {
        !self.requester_remapping_active
    }
}

/// A window stands only where coherence was observed and no remapping was, and
/// all of it lies below the device's limit.
pub proof fn law_a_window_rests_on_its_observation(claim: IdentityClaim)
    requires
        claim.fault() is None,
    ensures
        claim.observation.x86_cache_coherent,
        !claim.observation.requester_remapping_active,
        claim.window().physical_start < claim.window().physical_end,
        claim.window().physical_end - 1 <= claim.device_address_limit,
        claim.window().cpu_end - claim.window().cpu_start == claim.physical_bytes,
        claim.window().proof_root != 0,
{
}

#[derive(Clone, Copy, Debug, PartialEq, Eq, Structural)]
pub enum XhciDmaPurpose {
    Dcbaa,
    CommandRing,
    EventRing,
    EventRingSegmentTable,
    ScratchpadPointerArray,
    ScratchpadBuffers,
}

impl XhciDmaPurpose {
    #[verifier::allow_in_spec]
    pub fn code(self) -> u64
        returns
            (match self {
                XhciDmaPurpose::Dcbaa => 1u64,
                XhciDmaPurpose::CommandRing => 2u64,
                XhciDmaPurpose::EventRing => 3u64,
                XhciDmaPurpose::EventRingSegmentTable => 4u64,
                XhciDmaPurpose::ScratchpadPointerArray => 5u64,
                XhciDmaPurpose::ScratchpadBuffers => 6u64,
            }),
    {
        match self {
            XhciDmaPurpose::Dcbaa => 1,
            XhciDmaPurpose::CommandRing => 2,
            XhciDmaPurpose::EventRing => 3,
            XhciDmaPurpose::EventRingSegmentTable => 4,
            XhciDmaPurpose::ScratchpadPointerArray => 5,
            XhciDmaPurpose::ScratchpadBuffers => 6,
        }
    }
}

#[derive(Clone, Copy, Debug, PartialEq, Eq, Structural)]
pub enum XhciDmaRegionPhase {
    Empty,
    FrameOwned,
    Zeroed,
    Ready,
    Releasing,
    ReleaseDebt,
    Released,
}

impl XhciDmaRegionPhase {
    /// Whether a region in this phase holds no frame.
    #[verifier::allow_in_spec]
    pub fn holds_nothing(self) -> bool
        returns
            (self == XhciDmaRegionPhase::Empty || self == XhciDmaRegionPhase::Released),
    {
        self == XhciDmaRegionPhase::Empty || self == XhciDmaRegionPhase::Released
    }
}

#[derive(Clone, Copy, Debug, PartialEq, Eq, Structural)]
pub struct XhciDmaRegionRecord {
    pub phase: XhciDmaRegionPhase,
    pub generation: u32,
    pub purpose: XhciDmaPurpose,
    pub device: PciAddress,
    pub physical_start: u64,
    pub physical_end: u64,
    pub device_address_start: u64,
    pub device_address_end: u64,
    pub cpu_start: usize,
    pub cpu_end: usize,
    pub page_count: usize,
    pub region_root: u64,
}

impl XhciDmaRegionRecord {
    pub fn byte_length(self) -> (length: usize)
        requires
            self.cpu_start <= self.cpu_end,
        ensures
            length == self.cpu_end - self.cpu_start,
    {
        self.cpu_end - self.cpu_start
    }

    pub open spec fn words(self) -> Seq<u64> {
        seq![
            self.purpose.code(),
            self.generation as u64,
            self.device.bus as u64,
            self.device.slot as u64,
            self.device.function as u64,
            self.physical_start,
            self.physical_end,
            self.device_address_start,
            self.device_address_end,
            self.page_count as u64,
        ]
    }

    pub open spec fn root_of(self, secret: u64) -> u64 {
        canonical_root(
            crate::seal::seal_of(secret ^ ARENA_ROOT_DOMAIN, self.words()),
            ARENA_ROOT_DOMAIN,
        )
    }
}

fn region_root(secret: u64, record: XhciDmaRegionRecord) -> (root: u64)
    ensures
        root == record.root_of(secret),
{
    let root: u64 = Sealer::new(secret ^ ARENA_ROOT_DOMAIN).word(record.purpose.code()).word(
        record.generation as u64,
    ).word(record.device.bus as u64).word(record.device.slot as u64).word(
        record.device.function as u64,
    ).word(record.physical_start).word(record.physical_end).word(
        record.device_address_start,
    ).word(record.device_address_end).word(record.page_count as u64).root();
    canonical_root(root, ARENA_ROOT_DOMAIN)
}

#[derive(Clone, Copy, Debug, PartialEq, Eq, Structural)]
pub struct XhciDmaRegionToken {
    pub generation: u32,
    pub purpose: XhciDmaPurpose,
}

impl XhciDmaRegionToken {
    #[verifier::allow_in_spec]
    pub fn generation(self) -> u32
        returns
            self.generation,
    {
        self.generation
    }

    #[verifier::allow_in_spec]
    pub fn purpose(self) -> XhciDmaPurpose
        returns
            self.purpose,
    {
        self.purpose
    }
}

#[derive(Clone, Copy, Debug, PartialEq, Eq, Structural)]
pub enum XhciDmaError {
    InvalidSecret,
    ScratchpadCountUnsupported(u16),
    FrameUnavailable(XhciDmaPurpose),
    PhysicalRangeOverflow(XhciDmaPurpose),
    OutsideIdentityAperture(XhciDmaPurpose),
    DeviceAddressLimit(XhciDmaPurpose),
    CpuAliasOverflow(XhciDmaPurpose),
    RegionCapacity,
    MissingRegion(XhciDmaPurpose),
    StaleRegionToken,
    InactiveRegion(XhciDmaPurpose),
    EmptyTransfer,
    TransferOutsideRegion,
}

/// Why the frame allocator refused a frame back.
#[derive(Clone, Copy, Debug, PartialEq, Eq, Structural)]
pub enum FrameAllocatorError {
    DoubleFree,
    Refused(u32),
}

#[derive(Clone, Copy, Debug, PartialEq, Eq, Structural)]
pub enum XhciDmaReleaseFault {
    QuiescenceMismatch,
    FrameAllocator { purpose: XhciDmaPurpose, source: FrameAllocatorError },
    AlreadyReleased,
}

#[derive(Clone, Copy, Debug, PartialEq, Eq, Structural)]
pub struct XhciDmaReleaseReceipt {
    pub device: PciAddress,
    pub generation: u32,
    pub released_pages: usize,
    pub release_root: u64,
}

/// Word that a controller generation can no longer reach its arena.
#[derive(Debug, PartialEq, Eq)]
pub struct XhciDmaQuiescence {
    pub device: PciAddress,
    pub generation: u32,
    pub evidence_root: u64,
}

impl XhciDmaQuiescence {
    /// The caller answers for the hardware: the controller is stopped, bus
    /// mastering is off, and every transaction of the generation has drained.
    pub fn establish(device: PciAddress, generation: u32, evidence_root: u64) -> (quiescence:
        Option<Self>)
        ensures
            quiescence == (if generation == 0 || evidence_root == 0 {
                None
            } else {
                Some(XhciDmaQuiescence { device, generation, evidence_root })
            }),
    {
        if generation == 0 || evidence_root == 0 {
            None
        } else {
            Some(XhciDmaQuiescence { device, generation, evidence_root })
        }
    }
}

/// Frames and their CPU aliases.
pub trait DmaPlatform {
    /// All that the platform was asked and answered.
    open spec fn history(&self) -> Seq<DmaEvent> {
        arbitrary()
    }

    fn allocate_contiguous(&mut self, page_count: usize) -> (reply: Option<u64>)
        ensures
            final(self).history() == old(self).history().push(
                DmaEvent::Allocate { page_count, reply },
            ),
    ;

    fn release_contiguous(&mut self, physical: u64, page_count: usize) -> (reply: Result<
        (),
        FrameAllocatorError,
    >)
        ensures
            final(self).history() == old(self).history().push(
                DmaEvent::Release { physical, page_count, refused: crate::trace::refusal(reply) },
            ),
    ;

    fn zero(&mut self, cpu_start: usize, bytes: usize)
        ensures
            final(self).history() == old(self).history().push(
                DmaEvent::Zero { cpu_start, bytes },
            ),
    ;

    fn write_word(&mut self, cpu_address: usize, value: u64)
        ensures
            final(self).history() == old(self).history().push(
                DmaEvent::WriteWord { cpu_address, value },
            ),
    ;

    fn write_byte(&mut self, cpu_address: usize, value: u8)
        ensures
            final(self).history() == old(self).history().push(
                DmaEvent::WriteByte { cpu_address, value },
            ),
    ;

    fn read_byte(&mut self, cpu_address: usize) -> (value: u8)
        ensures
            final(self).history() == old(self).history().push(
                DmaEvent::ReadByte { cpu_address, value },
            ),
    ;
}

/// A platform that is lent.
impl<P: DmaPlatform> DmaPlatform for &mut P {
    open spec fn history(&self) -> Seq<DmaEvent> {
        (**self).history()
    }

    fn allocate_contiguous(&mut self, page_count: usize) -> (reply: Option<u64>) {
        (**self).allocate_contiguous(page_count)
    }

    fn release_contiguous(&mut self, physical: u64, page_count: usize) -> (reply: Result<
        (),
        FrameAllocatorError,
    >) {
        (**self).release_contiguous(physical, page_count)
    }

    fn zero(&mut self, cpu_start: usize, bytes: usize) {
        (**self).zero(cpu_start, bytes)
    }

    fn write_word(&mut self, cpu_address: usize, value: u64) {
        (**self).write_word(cpu_address, value)
    }

    fn write_byte(&mut self, cpu_address: usize, value: u8) {
        (**self).write_byte(cpu_address, value)
    }

    fn read_byte(&mut self, cpu_address: usize) -> (value: u8) {
        (**self).read_byte(cpu_address)
    }
}

/// One exchange with the platform.
pub enum DmaEvent {
    Allocate { page_count: usize, reply: Option<u64> },
    Release { physical: u64, page_count: usize, refused: Option<FrameAllocatorError> },
    Zero { cpu_start: usize, bytes: usize },
    WriteWord { cpu_address: usize, value: u64 },
    WriteByte { cpu_address: usize, value: u8 },
    ReadByte { cpu_address: usize, value: u8 },
}

/// The platform of an arena. Its transcript is the history of the platform.
pub struct DmaTrace<P> {
    pub platform: P,
}

impl<P: DmaPlatform> DmaTrace<P> {
    pub open spec fn log(&self) -> Seq<DmaEvent> {
        self.platform.history()
    }

    pub fn new(platform: P) -> (trace: Self)
        ensures
            trace.platform == platform,
    {
        DmaTrace { platform }
    }

    fn allocate_contiguous(&mut self, page_count: usize) -> (reply: Option<u64>)
        ensures
            final(self).log() == old(self).log().push(DmaEvent::Allocate { page_count, reply }),
    {
        let reply = self.platform.allocate_contiguous(page_count);
        reply
    }

    fn release_contiguous(&mut self, physical: u64, page_count: usize) -> (refused: Option<
        FrameAllocatorError,
    >)
        ensures
            final(self).log() == old(self).log().push(
                DmaEvent::Release { physical, page_count, refused },
            ),
    {
        let refused = match self.platform.release_contiguous(physical, page_count) {
            Ok(()) => None,
            Err(error) => Some(error),
        };
        refused
    }

    fn zero(&mut self, cpu_start: usize, bytes: usize)
        ensures
            final(self).log() == old(self).log().push(DmaEvent::Zero { cpu_start, bytes }),
    {
        self.platform.zero(cpu_start, bytes);
    }

    fn write_word(&mut self, cpu_address: usize, value: u64)
        ensures
            final(self).log() == old(self).log().push(
                DmaEvent::WriteWord { cpu_address, value },
            ),
    {
        self.platform.write_word(cpu_address, value);
    }

    fn write_byte(&mut self, cpu_address: usize, value: u8)
        ensures
            final(self).log() == old(self).log().push(
                DmaEvent::WriteByte { cpu_address, value },
            ),
    {
        self.platform.write_byte(cpu_address, value);
    }

    fn read_byte(&mut self, cpu_address: usize) -> (value: u8)
        ensures
            final(self).log() == old(self).log().push(
                DmaEvent::ReadByte { cpu_address, value },
            ),
    {
        let value: u8 = self.platform.read_byte(cpu_address);
        value
    }
}

/// Where a region of frames lies for the device and for the CPU.
#[derive(Clone, Copy, Debug, PartialEq, Eq, Structural)]
pub struct Placement {
    pub physical_end: u64,
    pub cpu_start: usize,
    pub cpu_end: usize,
}

/// Where frames lie, if all of them are inside the window and below the limit.
pub open spec fn placement(
    window: IdentityDmaWindow,
    limit: u64,
    purpose: XhciDmaPurpose,
    physical: u64,
    page_count: usize,
) -> Result<Placement, XhciDmaError> {
    let bytes = page_count * PAGE_SIZE;
    let cpu_start = window.direct_map_base + physical;
    if bytes > usize::MAX || physical + bytes > u64::MAX {
        Err(XhciDmaError::PhysicalRangeOverflow(purpose))
    } else if physical < window.physical_start || physical + bytes > window.physical_end {
        Err(XhciDmaError::OutsideIdentityAperture(purpose))
    } else if physical + bytes - 1 > limit {
        Err(XhciDmaError::DeviceAddressLimit(purpose))
    } else if physical > usize::MAX || cpu_start + bytes > usize::MAX || cpu_start
        < window.cpu_start || cpu_start + bytes > window.cpu_end {
        Err(XhciDmaError::CpuAliasOverflow(purpose))
    } else {
        Ok(
            Placement {
                physical_end: (physical + bytes) as u64,
                cpu_start: cpu_start as usize,
                cpu_end: (cpu_start + bytes) as usize,
            },
        )
    }
}

fn place(
    window: &IdentityDmaWindow,
    limit: u64,
    purpose: XhciDmaPurpose,
    physical: u64,
    page_count: usize,
) -> (result: Result<Placement, XhciDmaError>)
    requires
        page_count >= 1,
    ensures
        result == placement(*window, limit, purpose, physical, page_count),
{
    let bytes: usize = match page_count.checked_mul(PAGE_SIZE) {
        None => {
            return Err(XhciDmaError::PhysicalRangeOverflow(purpose));
        },
        Some(bytes) => bytes,
    };
    let physical_end: u64 = match physical.checked_add(bytes as u64) {
        None => {
            return Err(XhciDmaError::PhysicalRangeOverflow(purpose));
        },
        Some(end) => end,
    };
    if physical < window.physical_start || physical_end > window.physical_end {
        return Err(XhciDmaError::OutsideIdentityAperture(purpose));
    }
    if physical_end - 1 > limit {
        return Err(XhciDmaError::DeviceAddressLimit(purpose));
    }
    if physical > usize::MAX as u64 {
        return Err(XhciDmaError::CpuAliasOverflow(purpose));
    }
    let cpu_start: usize = match window.direct_map_base.checked_add(physical as usize) {
        None => {
            return Err(XhciDmaError::CpuAliasOverflow(purpose));
        },
        Some(start) => start,
    };
    let cpu_end: usize = match cpu_start.checked_add(bytes) {
        None => {
            return Err(XhciDmaError::CpuAliasOverflow(purpose));
        },
        Some(end) => end,
    };
    if cpu_start < window.cpu_start || cpu_end > window.cpu_end {
        return Err(XhciDmaError::CpuAliasOverflow(purpose));
    }
    Ok(Placement { physical_end, cpu_start, cpu_end })
}

/// The record of frames that are owned and not placed yet.
#[verifier::allow_in_spec]
pub fn owned_record(
    window: &IdentityDmaWindow,
    purpose: XhciDmaPurpose,
    physical: u64,
    page_count: usize,
) -> XhciDmaRegionRecord
    returns
        (XhciDmaRegionRecord {
            phase: XhciDmaRegionPhase::FrameOwned,
            generation: window.generation,
            purpose,
            device: window.device,
            physical_start: physical,
            physical_end: physical,
            device_address_start: physical,
            device_address_end: physical,
            cpu_start: 0,
            cpu_end: 0,
            page_count,
            region_root: 0,
        }),
{
    XhciDmaRegionRecord {
        phase: XhciDmaRegionPhase::FrameOwned,
        generation: window.generation,
        purpose,
        device: window.device,
        physical_start: physical,
        physical_end: physical,
        device_address_start: physical,
        device_address_end: physical,
        cpu_start: 0,
        cpu_end: 0,
        page_count,
        region_root: 0,
    }
}

/// The record of frames that are placed and zeroed.
pub open spec fn zeroed_record(
    owned: XhciDmaRegionRecord,
    placed: Placement,
    secret: u64,
) -> XhciDmaRegionRecord {
    let record = XhciDmaRegionRecord {
        phase: XhciDmaRegionPhase::Zeroed,
        physical_end: placed.physical_end,
        device_address_end: placed.physical_end,
        cpu_start: placed.cpu_start,
        cpu_end: placed.cpu_end,
        ..owned
    };
    XhciDmaRegionRecord { region_root: record.root_of(secret), ..record }
}

/// The step of building one region, by the transcript: the records after it, and
/// what it failed with.
pub open spec fn region_run(
    window: IdentityDmaWindow,
    limit: u64,
    secret: u64,
    records: Seq<XhciDmaRegionRecord>,
    purpose: XhciDmaPurpose,
    page_count: usize,
    log: Seq<DmaEvent>,
    at: int,
) -> Option<(Seq<XhciDmaRegionRecord>, Option<XhciDmaError>, int)> {
    if records.len() >= FIXED_REGION_CAPACITY {
        Some((records, Some(XhciDmaError::RegionCapacity), at))
    } else if !(0 <= at < log.len()) {
        None
    } else {
        match log[at] {
            DmaEvent::Allocate { page_count: asked, reply } => if asked != page_count {
                None
            } else {
                match reply {
                    None => Some((records, Some(XhciDmaError::FrameUnavailable(purpose)), at + 1)),
                    Some(physical) => {
                        let owned = owned_record(&window, purpose, physical, page_count);
                        match placement(window, limit, purpose, physical, page_count) {
                            Err(error) => Some((records.push(owned), Some(error), at + 1)),
                            Ok(placed) => if at + 1 < log.len() && log[at + 1] == (DmaEvent::Zero {
                                cpu_start: placed.cpu_start,
                                bytes: (placed.cpu_end - placed.cpu_start) as usize,
                            }) {
                                Some(
                                    (
                                        records.push(zeroed_record(owned, placed, secret)),
                                        None,
                                        at + 2,
                                    ),
                                )
                            } else {
                                None
                            },
                        }
                    },
                }
            },
            _ => None,
        }
    }
}

/// The regions of an arena and their sizes, in the order of building.
pub open spec fn region_plan(scratchpad_count: u16) -> Seq<(XhciDmaPurpose, usize)> {
    let base = seq![
        (XhciDmaPurpose::Dcbaa, 1usize),
        (XhciDmaPurpose::CommandRing, 1usize),
        (XhciDmaPurpose::EventRing, 1usize),
        (XhciDmaPurpose::EventRingSegmentTable, 1usize),
    ];
    if scratchpad_count == 0 {
        base
    } else {
        base.push(
            (XhciDmaPurpose::ScratchpadPointerArray, pointer_pages(scratchpad_count)),
        ).push((XhciDmaPurpose::ScratchpadBuffers, scratchpad_count as usize))
    }
}

/// The pages that hold one pointer for each scratchpad buffer.
#[verifier::allow_in_spec]
pub fn pointer_pages(scratchpad_count: u16) -> usize
    returns
        (((scratchpad_count * 8 + 4095) / 4096) as usize),
{
    (scratchpad_count as usize * 8 + 4095) / 4096
}

/// The building of a plan from one region on, by the transcript.
pub open spec fn plan_run(
    window: IdentityDmaWindow,
    limit: u64,
    secret: u64,
    plan: Seq<(XhciDmaPurpose, usize)>,
    index: int,
    records: Seq<XhciDmaRegionRecord>,
    log: Seq<DmaEvent>,
    at: int,
) -> Option<(Seq<XhciDmaRegionRecord>, Option<XhciDmaError>, int)>
    decreases plan.len() - index,
{
    if index < 0 || index >= plan.len() {
        Some((records, None, at))
    } else {
        match region_run(
            window,
            limit,
            secret,
            records,
            plan[index].0,
            plan[index].1,
            log,
            at,
        ) {
            None => None,
            Some((grown, Some(error), after)) => Some((grown, Some(error), after)),
            Some((grown, None, after)) => plan_run(
                window,
                limit,
                secret,
                plan,
                index + 1,
                grown,
                log,
                after,
            ),
        }
    }
}

/// The first region of a purpose.
pub open spec fn region_for(
    records: Seq<XhciDmaRegionRecord>,
    purpose: XhciDmaPurpose,
    from: int,
) -> Option<XhciDmaRegionRecord>
    decreases records.len() - from,
{
    if from < 0 || from >= records.len() {
        None
    } else if records[from].purpose == purpose {
        Some(records[from])
    } else {
        region_for(records, purpose, from + 1)
    }
}

/// A transfer that leaves a region is refused.
#[verifier::allow_in_spec]
pub fn validate_transfer(record: XhciDmaRegionRecord, offset: usize, length: usize) -> Result<
    (),
    XhciDmaError,
>
    requires
        record.cpu_start <= record.cpu_end,
    returns
        (if offset + length > record.cpu_end - record.cpu_start {
            Err(XhciDmaError::TransferOutsideRegion)
        } else {
            Ok::<(), XhciDmaError>(())
        }),
{
    let bytes: usize = record.byte_length();
    if offset > bytes || length > bytes - offset {
        Err(XhciDmaError::TransferOutsideRegion)
    } else {
        Ok(())
    }
}

/// One word written into a region, by the transcript.
pub open spec fn word_run(
    record: XhciDmaRegionRecord,
    offset: int,
    value: u64,
    log: Seq<DmaEvent>,
    at: int,
) -> Option<(Option<XhciDmaError>, int)> {
    if offset + 8 > record.cpu_end - record.cpu_start {
        Some((Some(XhciDmaError::TransferOutsideRegion), at))
    } else if 0 <= at < log.len() && log[at] == (DmaEvent::WriteWord {
        cpu_address: (record.cpu_start + offset) as usize,
        value,
    }) {
        Some((None, at + 1))
    } else {
        None
    }
}

/// The pointers to the scratchpad buffers from one on, by the transcript.
pub open spec fn pointers_run(
    array: XhciDmaRegionRecord,
    buffers: XhciDmaRegionRecord,
    count: u16,
    index: int,
    log: Seq<DmaEvent>,
    at: int,
) -> Option<(Option<XhciDmaError>, int)>
    decreases count - index,
{
    if index >= count {
        Some((None, at))
    } else if buffers.device_address_start + index * PAGE_SIZE > u64::MAX {
        Some(
            (
                Some(XhciDmaError::PhysicalRangeOverflow(XhciDmaPurpose::ScratchpadBuffers)),
                at,
            ),
        )
    } else {
        match word_run(
            array,
            index * 8,
            (buffers.device_address_start + index * PAGE_SIZE) as u64,
            log,
            at,
        ) {
            None => None,
            Some((Some(error), after)) => Some((Some(error), after)),
            Some((None, after)) => pointers_run(array, buffers, count, index + 1, log, after),
        }
    }
}

/// The linking of the scratchpad, by the transcript.
pub open spec fn links_run(
    records: Seq<XhciDmaRegionRecord>,
    count: u16,
    log: Seq<DmaEvent>,
    at: int,
) -> Option<(Option<XhciDmaError>, int)> {
    match region_for(records, XhciDmaPurpose::ScratchpadPointerArray, 0) {
        None => Some(
            (Some(XhciDmaError::MissingRegion(XhciDmaPurpose::ScratchpadPointerArray)), at),
        ),
        Some(array) => match region_for(records, XhciDmaPurpose::ScratchpadBuffers, 0) {
            None => Some(
                (Some(XhciDmaError::MissingRegion(XhciDmaPurpose::ScratchpadBuffers)), at),
            ),
            Some(buffers) => match pointers_run(array, buffers, count, 0, log, at) {
                None => None,
                Some((Some(error), after)) => Some((Some(error), after)),
                Some((None, after)) => match region_for(records, XhciDmaPurpose::Dcbaa, 0) {
                    None => Some((Some(XhciDmaError::MissingRegion(XhciDmaPurpose::Dcbaa)), after)),
                    Some(dcbaa) => word_run(dcbaa, 0, array.device_address_start, log, after),
                },
            },
        },
    }
}

/// The records with every region ready.
pub open spec fn all_ready(records: Seq<XhciDmaRegionRecord>) -> Seq<XhciDmaRegionRecord> {
    records.map_values(
        |record: XhciDmaRegionRecord| XhciDmaRegionRecord {
            phase: XhciDmaRegionPhase::Ready,
            ..record
        },
    )
}

/// The building of all regions, by the transcript.
pub open spec fn regions_run(
    window: IdentityDmaWindow,
    limit: u64,
    secret: u64,
    scratchpad_count: u16,
    log: Seq<DmaEvent>,
    at: int,
) -> Option<(Seq<XhciDmaRegionRecord>, Option<XhciDmaError>, int)> {
    match plan_run(
        window,
        limit,
        secret,
        region_plan(scratchpad_count),
        0,
        Seq::empty(),
        log,
        at,
    ) {
        None => None,
        Some((records, Some(error), after)) => Some((records, Some(error), after)),
        Some((records, None, after)) => if scratchpad_count == 0 {
            Some((all_ready(records), None, after))
        } else {
            match links_run(records, scratchpad_count, log, after) {
                None => None,
                Some((Some(error), end)) => Some((records, Some(error), end)),
                Some((None, end)) => Some((all_ready(records), None, end)),
            }
        },
    }
}

/// The pages of the regions that gave their frames back.
pub open spec fn released_total(records: Seq<XhciDmaRegionRecord>) -> int
    decreases records.len(),
{
    if records.len() == 0 {
        0
    } else {
        released_total(records.drop_last()) + if records.last().phase
            == XhciDmaRegionPhase::Released {
            records.last().page_count as int
        } else {
            0
        }
    }
}

/// Records that an arena may hold.
pub open spec fn records_wf(records: Seq<XhciDmaRegionRecord>) -> bool {
    &&& records.len() <= FIXED_REGION_CAPACITY
    &&& forall|i: int|
        0 <= i < records.len() ==> (#[trigger] records[i]).cpu_start <= records[i].cpu_end
            && records[i].page_count <= MAXIMUM_SCRATCHPAD_BUFFERS
}

/// The DMA storage of one controller generation. It owns its frames until a
/// release hands back a receipt.
#[derive(Debug, PartialEq, Eq)]
pub struct XhciDmaArena {
    pub identity: IdentityDmaWindow,
    pub records: Vec<XhciDmaRegionRecord>,
    pub scratchpad_count: u16,
    pub supports_64_bit_addresses: bool,
    pub effective_device_limit: u64,
    pub secret: u64,
    pub arena_root: u64,
    pub released_pages: usize,
}

/// The highest address that a controller can use.
#[verifier::allow_in_spec]
pub fn effective_limit(limit: u64, supports_64_bit_addresses: bool) -> u64
    returns
        (if supports_64_bit_addresses || limit <= u32::MAX {
            limit
        } else {
            u32::MAX as u64
        }),
{
    if supports_64_bit_addresses || limit <= u32::MAX as u64 {
        limit
    } else {
        u32::MAX as u64
    }
}

/// The words that an arena root seals.
pub open spec fn arena_words(
    window: IdentityDmaWindow,
    scratchpad_count: u16,
    supports_64_bit_addresses: bool,
    records: Seq<XhciDmaRegionRecord>,
) -> Seq<u64>
    decreases records.len(),
{
    if records.len() == 0 {
        seq![
            window.proof_root,
            window.generation as u64,
            scratchpad_count as u64,
            crate::seal::flag_word(supports_64_bit_addresses),
        ]
    } else {
        arena_words(
            window,
            scratchpad_count,
            supports_64_bit_addresses,
            records.drop_last(),
        ).push(records.last().region_root)
    }
}

pub open spec fn arena_root_of(
    window: IdentityDmaWindow,
    scratchpad_count: u16,
    supports_64_bit_addresses: bool,
    records: Seq<XhciDmaRegionRecord>,
    secret: u64,
) -> u64 {
    canonical_root(
        crate::seal::seal_of(
            secret ^ ARENA_ROOT_DOMAIN,
            arena_words(window, scratchpad_count, supports_64_bit_addresses, records),
        ),
        ARENA_ROOT_DOMAIN,
    )
}

impl XhciDmaArena {
    pub open spec fn wf(&self) -> bool {
        &&& records_wf(self.records@)
        &&& self.released_pages == released_total(self.records@)
    }

    /// The arena, but for its records.
    pub open spec fn same_arena(&self, other: &XhciDmaArena) -> bool {
        &&& self.identity == other.identity
        &&& self.scratchpad_count == other.scratchpad_count
        &&& self.supports_64_bit_addresses == other.supports_64_bit_addresses
        &&& self.effective_device_limit == other.effective_device_limit
        &&& self.secret == other.secret
        &&& self.arena_root == other.arena_root
    }

    fn allocate_region<P: DmaPlatform>(
        &mut self,
        purpose: XhciDmaPurpose,
        page_count: usize,
        trace: &mut DmaTrace<P>,
    ) -> (failed: Option<XhciDmaError>)
        requires
            old(self).wf(),
            1 <= page_count <= MAXIMUM_SCRATCHPAD_BUFFERS,
        ensures
            final(self).wf(),
            final(self).same_arena(old(self)),
            final(self).released_pages == old(self).released_pages,
            crate::trace::continues(final(trace).log(), old(trace).log()),
            forall|log: Seq<DmaEvent>| #[trigger]
                crate::trace::continues(log, final(trace).log()) ==> region_run(
                    old(self).identity,
                    old(self).effective_device_limit,
                    old(self).secret,
                    old(self).records@,
                    purpose,
                    page_count,
                    log,
                    old(trace).log().len() as int,
                ) == Some((final(self).records@, failed, final(trace).log().len() as int)),
    {
        if self.records.len() >= FIXED_REGION_CAPACITY {
            return Some(XhciDmaError::RegionCapacity);
        }
        let ghost start = trace.log().len() as int;
        let ghost before = self.records@;
        let reply = trace.allocate_contiguous(page_count);
        assert(trace.log()[start] == (DmaEvent::Allocate { page_count, reply }));
        let physical: u64 = match reply {
            None => {
                return Some(XhciDmaError::FrameUnavailable(purpose));
            },
            Some(physical) => physical,
        };
        let owned = owned_record(&self.identity, purpose, physical, page_count);
        let placed = match place(
            &self.identity,
            self.effective_device_limit,
            purpose,
            physical,
            page_count,
        ) {
            Err(error) => {
                self.records.push(owned);
                assert(self.records@.drop_last() =~= before);
                return Some(error);
            },
            Ok(placed) => placed,
        };
        let mut record = XhciDmaRegionRecord {
            phase: XhciDmaRegionPhase::Zeroed,
            physical_end: placed.physical_end,
            device_address_end: placed.physical_end,
            cpu_start: placed.cpu_start,
            cpu_end: placed.cpu_end,
            ..owned
        };
        let ghost unsealed = record;
        record.region_root = region_root(self.secret, record);
        let ghost one = trace.log();
        trace.zero(placed.cpu_start, placed.cpu_end - placed.cpu_start);
        assert(trace.log()[start] == one[start]);
        assert(trace.log()[start + 1] is Zero);
        self.records.push(record);
        assert(self.records@.drop_last() =~= before);
        assert(record == zeroed_record(owned, placed, self.secret));
        None
    }

    pub fn region(&self, purpose: XhciDmaPurpose) -> (record: Option<XhciDmaRegionRecord>)
        ensures
            record == region_for(self.records@, purpose, 0),
            record matches Some(found) ==> self.records@.contains(found) && found.purpose
                == purpose,
    {
        let mut index: usize = 0;
        while index < self.records.len()
            invariant
                index <= self.records@.len(),
                region_for(self.records@, purpose, 0) == region_for(
                    self.records@,
                    purpose,
                    index as int,
                ),
            decreases self.records@.len() - index,
        {
            if self.records[index].purpose == purpose {
                assert(self.records@.contains(self.records@[index as int]));
                return Some(self.records[index]);
            }
            index = index + 1;
        }
        None
    }

    pub fn token(&self, purpose: XhciDmaPurpose) -> (token: Option<XhciDmaRegionToken>)
        ensures
            token == (match region_for(self.records@, purpose, 0) {
                Some(record) => Some(
                    XhciDmaRegionToken { generation: record.generation, purpose },
                ),
                None => None,
            }),
    {
        match self.region(purpose) {
            Some(record) => Some(XhciDmaRegionToken { generation: record.generation, purpose }),
            None => None,
        }
    }

    fn initialize_scratchpad_links<P: DmaPlatform>(&self, trace: &mut DmaTrace<P>) -> (failed:
        Option<XhciDmaError>)
        requires
            self.wf(),
        ensures
            crate::trace::continues(final(trace).log(), old(trace).log()),
            forall|log: Seq<DmaEvent>| #[trigger]
                crate::trace::continues(log, final(trace).log()) ==> links_run(
                    self.records@,
                    self.scratchpad_count,
                    log,
                    old(trace).log().len() as int,
                ) == Some((failed, final(trace).log().len() as int)),
    {
        let array = match self.region(XhciDmaPurpose::ScratchpadPointerArray) {
            None => {
                return Some(
                    XhciDmaError::MissingRegion(XhciDmaPurpose::ScratchpadPointerArray),
                );
            },
            Some(array) => array,
        };
        let buffers = match self.region(XhciDmaPurpose::ScratchpadBuffers) {
            None => {
                return Some(XhciDmaError::MissingRegion(XhciDmaPurpose::ScratchpadBuffers));
            },
            Some(buffers) => buffers,
        };
        match write_pointers(array, buffers, self.scratchpad_count, trace) {
            Some(error) => {
                return Some(error);
            },
            None => {},
        }
        let dcbaa = match self.region(XhciDmaPurpose::Dcbaa) {
            None => {
                return Some(XhciDmaError::MissingRegion(XhciDmaPurpose::Dcbaa));
            },
            Some(dcbaa) => dcbaa,
        };
        let ghost written = trace.log();
        let failed = volatile_write_u64(dcbaa, 0, array.device_address_start, trace);
        assert forall|log: Seq<DmaEvent>| #[trigger]
            crate::trace::continues(log, trace.log()) implies crate::trace::continues(
            log,
            written,
        ) by {}
        failed
    }
}

fn volatile_write_u64<P: DmaPlatform>(
    record: XhciDmaRegionRecord,
    offset: usize,
    value: u64,
    trace: &mut DmaTrace<P>,
) -> (failed: Option<XhciDmaError>)
    requires
        record.cpu_start <= record.cpu_end,
    ensures
        crate::trace::continues(final(trace).log(), old(trace).log()),
        forall|log: Seq<DmaEvent>| #[trigger]
            crate::trace::continues(log, final(trace).log()) ==> word_run(
                record,
                offset as int,
                value,
                log,
                old(trace).log().len() as int,
            ) == Some((failed, final(trace).log().len() as int)),
{
    match validate_transfer(record, offset, 8) {
        Err(error) => {
            return Some(error);
        },
        Ok(()) => {},
    }
    let ghost start = trace.log().len() as int;
    let cpu_address: usize = record.cpu_start + offset;
    trace.write_word(cpu_address, value);
    assert(trace.log()[start] == (DmaEvent::WriteWord { cpu_address, value }));
    None
}

fn write_pointers<P: DmaPlatform>(
    array: XhciDmaRegionRecord,
    buffers: XhciDmaRegionRecord,
    count: u16,
    trace: &mut DmaTrace<P>,
) -> (failed: Option<XhciDmaError>)
    requires
        array.cpu_start <= array.cpu_end,
    ensures
        crate::trace::continues(final(trace).log(), old(trace).log()),
        forall|log: Seq<DmaEvent>| #[trigger]
            crate::trace::continues(log, final(trace).log()) ==> pointers_run(
                array,
                buffers,
                count,
                0,
                log,
                old(trace).log().len() as int,
            ) == Some((failed, final(trace).log().len() as int)),
{
    let mut index: u16 = 0;
    while index < count
        invariant
            index <= count,
            array.cpu_start <= array.cpu_end,
            crate::trace::continues(trace.log(), old(trace).log()),
            forall|log: Seq<DmaEvent>| #[trigger]
                crate::trace::continues(log, trace.log()) ==> pointers_run(
                    array,
                    buffers,
                    count,
                    0,
                    log,
                    old(trace).log().len() as int,
                ) == pointers_run(
                    array,
                    buffers,
                    count,
                    index as int,
                    log,
                    trace.log().len() as int,
                ),
        decreases count - index,
    {
        let address: u64 = match buffers.device_address_start.checked_add(index as u64 * 4096) {
            None => {
                return Some(
                    XhciDmaError::PhysicalRangeOverflow(XhciDmaPurpose::ScratchpadBuffers),
                );
            },
            Some(address) => address,
        };
        let ghost head = trace.log();
        let failed = volatile_write_u64(array, index as usize * 8, address, trace);
        assert forall|log: Seq<DmaEvent>| #[trigger]
            crate::trace::continues(log, trace.log()) implies crate::trace::continues(
            log,
            head,
        ) by {}
        match failed {
            Some(error) => {
                return Some(error);
            },
            None => {},
        }
        index = index + 1;
    }
    None
}

/// The pages that a record counts as given back.
pub open spec fn released_weight(record: XhciDmaRegionRecord) -> int {
    if record.phase == XhciDmaRegionPhase::Released {
        record.page_count as int
    } else {
        0
    }
}

proof fn lemma_released_update(
    records: Seq<XhciDmaRegionRecord>,
    at: int,
    record: XhciDmaRegionRecord,
)
    requires
        0 <= at < records.len(),
    ensures
        released_total(records.update(at, record)) == released_total(records) - released_weight(
            records[at],
        ) + released_weight(record),
    decreases records.len(),
{
    let changed = records.update(at, record);
    if at == records.len() - 1 {
        assert(changed.drop_last() =~= records.drop_last());
    } else {
        assert(changed.drop_last() =~= records.drop_last().update(at, record));
        lemma_released_update(records.drop_last(), at, record);
    }
}

proof fn lemma_released_bound(records: Seq<XhciDmaRegionRecord>)
    requires
        forall|i: int|
            0 <= i < records.len() ==> (#[trigger] records[i]).page_count
                <= MAXIMUM_SCRATCHPAD_BUFFERS,
    ensures
        0 <= released_total(records) <= records.len() * MAXIMUM_SCRATCHPAD_BUFFERS,
    decreases records.len(),
{
    if records.len() > 0 {
        lemma_released_bound(records.drop_last());
    }
}

/// A record in another phase.
pub open spec fn in_phase(
    record: XhciDmaRegionRecord,
    phase: XhciDmaRegionPhase,
) -> XhciDmaRegionRecord {
    XhciDmaRegionRecord { phase, ..record }
}

/// The giving back of the first records, last one first, by the transcript: the
/// records and released pages after it, and what stopped it.
pub open spec fn release_run(
    records: Seq<XhciDmaRegionRecord>,
    released: int,
    left: int,
    log: Seq<DmaEvent>,
    at: int,
) -> Option<(Seq<XhciDmaRegionRecord>, int, Option<XhciDmaReleaseFault>, int)>
    decreases left,
{
    if left <= 0 || left > records.len() {
        Some((records, released, None, at))
    } else {
        let record = records[left - 1];
        if record.phase.holds_nothing() {
            release_run(records, released, left - 1, log, at)
        } else if !(0 <= at < log.len()) {
            None
        } else {
            match log[at] {
                DmaEvent::Release { physical, page_count, refused } => if physical
                    != record.physical_start || page_count != record.page_count {
                    None
                } else {
                    match refused {
                        Some(source) => Some(
                            (
                                records.update(
                                    left - 1,
                                    in_phase(record, XhciDmaRegionPhase::ReleaseDebt),
                                ),
                                released,
                                Some(
                                    XhciDmaReleaseFault::FrameAllocator {
                                        purpose: record.purpose,
                                        source,
                                    },
                                ),
                                at + 1,
                            ),
                        ),
                        None => release_run(
                            records.update(
                                left - 1,
                                in_phase(record, XhciDmaRegionPhase::Released),
                            ),
                            released + record.page_count,
                            left - 1,
                            log,
                            at + 1,
                        ),
                    }
                },
                _ => None,
            }
        }
    }
}

/// Whether an arena has nothing left to give back.
pub open spec fn nothing_held(records: Seq<XhciDmaRegionRecord>) -> bool {
    forall|i: int| 0 <= i < records.len() ==> (#[trigger] records[i]).phase.holds_nothing()
}

/// The receipt of an arena that gave everything back.
pub open spec fn receipt_of(
    window: IdentityDmaWindow,
    arena_root: u64,
    released_pages: usize,
) -> XhciDmaReleaseReceipt {
    XhciDmaReleaseReceipt {
        device: window.device,
        generation: window.generation,
        released_pages,
        release_root: canonical_root(
            crate::seal::seal_of(
                arena_root ^ ARENA_ROOT_DOMAIN,
                seq![window.generation as u64, released_pages as u64, window.proof_root],
            ),
            ARENA_ROOT_DOMAIN,
        ),
    }
}

impl XhciDmaArena {
    fn holds_nothing(&self) -> (nothing: bool)
        ensures
            nothing == nothing_held(self.records@),
    {
        let mut index: usize = 0;
        while index < self.records.len()
            invariant
                index <= self.records@.len(),
                forall|i: int|
                    0 <= i < index ==> (#[trigger] self.records@[i]).phase.holds_nothing(),
            decreases self.records@.len() - index,
        {
            if !self.records[index].phase.holds_nothing() {
                return false;
            }
            index = index + 1;
        }
        true
    }

    /// Gives every held frame back, last region first. A refused region stays
    /// with its frames, and so do those before it.
    pub fn release_records<P: DmaPlatform>(&mut self, trace: &mut DmaTrace<P>) -> (result: Result<
        XhciDmaReleaseReceipt,
        XhciDmaReleaseFault,
    >)
        requires
            old(self).wf(),
        ensures
            final(self).wf(),
            final(self).same_arena(old(self)),
            crate::trace::continues(final(trace).log(), old(trace).log()),
            nothing_held(old(self).records@) ==> result == Err::<XhciDmaReleaseReceipt, _>(
                XhciDmaReleaseFault::AlreadyReleased,
            ) && final(trace).log() == old(trace).log() && *final(self) == *old(self),
            !nothing_held(old(self).records@) ==> forall|log: Seq<DmaEvent>| #[trigger]
                crate::trace::continues(log, final(trace).log()) ==> release_run(
                    old(self).records@,
                    old(self).released_pages as int,
                    old(self).records@.len() as int,
                    log,
                    old(trace).log().len() as int,
                ) == Some(
                    (
                        final(self).records@,
                        final(self).released_pages as int,
                        match result {
                            Ok(_) => None,
                            Err(fault) => Some(fault),
                        },
                        final(trace).log().len() as int,
                    ),
                ),
            result matches Ok(receipt) ==> receipt == receipt_of(
                final(self).identity,
                final(self).arena_root,
                final(self).released_pages,
            ),
    {
        if self.holds_nothing() {
            return Err(XhciDmaReleaseFault::AlreadyReleased);
        }
        let mut left: usize = self.records.len();
        while left > 0
            invariant
                left <= self.records@.len(),
                self.wf(),
                self.same_arena(old(self)),
                !nothing_held(old(self).records@),
                crate::trace::continues(trace.log(), old(trace).log()),
                forall|log: Seq<DmaEvent>| #[trigger]
                    crate::trace::continues(log, trace.log()) ==> release_run(
                        old(self).records@,
                        old(self).released_pages as int,
                        old(self).records@.len() as int,
                        log,
                        old(trace).log().len() as int,
                    ) == release_run(
                        self.records@,
                        self.released_pages as int,
                        left as int,
                        log,
                        trace.log().len() as int,
                    ),
            decreases left,
        {
            let index: usize = left - 1;
            let record = self.records[index];
            if !record.phase.holds_nothing() {
                let ghost head = trace.log();
                let ghost before = self.records@;
                let refused = trace.release_contiguous(record.physical_start, record.page_count);
                assert forall|log: Seq<DmaEvent>| #[trigger]
                    crate::trace::continues(log, trace.log()) implies crate::trace::continues(
                    log,
                    head,
                ) && log[head.len() as int] == trace.log()[head.len() as int] by {}
                match refused {
                    Some(source) => {
                        let debt = XhciDmaRegionRecord {
                            phase: XhciDmaRegionPhase::ReleaseDebt,
                            ..record
                        };
                        self.records.set(index, debt);
                        proof {
                            lemma_released_update(before, index as int, debt);
                        }
                        return Err(
                            XhciDmaReleaseFault::FrameAllocator {
                                purpose: record.purpose,
                                source,
                            },
                        );
                    },
                    None => {
                        let done = XhciDmaRegionRecord {
                            phase: XhciDmaRegionPhase::Released,
                            ..record
                        };
                        self.records.set(index, done);
                        proof {
                            lemma_released_update(before, index as int, done);
                            lemma_released_bound(self.records@);
                        }
                        self.released_pages = self.released_pages + record.page_count;
                    },
                }
            }
            left = index;
        }
        let root: u64 = Sealer::new(self.arena_root ^ ARENA_ROOT_DOMAIN).word(
            self.identity.generation as u64,
        ).word(self.released_pages as u64).word(self.identity.proof_root).root();
        Ok(
            XhciDmaReleaseReceipt {
                device: self.identity.device,
                generation: self.identity.generation,
                released_pages: self.released_pages,
                release_root: canonical_root(root, ARENA_ROOT_DOMAIN),
            },
        )
    }
}

/// How the building of an arena ended.
pub struct BuildEnd {
    pub records: Seq<XhciDmaRegionRecord>,
    pub released_pages: int,
    pub cause: Option<XhciDmaError>,
    pub debt: Option<XhciDmaReleaseFault>,
}

/// An arena whose building failed gives its frames back.
pub open spec fn rollback_run(
    records: Seq<XhciDmaRegionRecord>,
    cause: XhciDmaError,
    log: Seq<DmaEvent>,
    at: int,
) -> Option<(BuildEnd, int)> {
    if records.len() == 0 {
        Some((BuildEnd { records, released_pages: 0, cause: Some(cause), debt: None }, at))
    } else if nothing_held(records) {
        Some(
            (
                BuildEnd {
                    records,
                    released_pages: 0,
                    cause: Some(cause),
                    debt: Some(XhciDmaReleaseFault::AlreadyReleased),
                },
                at,
            ),
        )
    } else {
        match release_run(records, 0, records.len() as int, log, at) {
            None => None,
            Some((left, released_pages, debt, after)) => Some(
                (BuildEnd { records: left, released_pages, cause: Some(cause), debt }, after),
            ),
        }
    }
}

/// The building of an arena, by the transcript.
pub open spec fn build_run(
    window: IdentityDmaWindow,
    scratchpad_count: u16,
    supports_64_bit_addresses: bool,
    secret: u64,
    log: Seq<DmaEvent>,
    at: int,
) -> Option<(BuildEnd, int)> {
    if secret == 0 {
        rollback_run(Seq::empty(), XhciDmaError::InvalidSecret, log, at)
    } else if scratchpad_count > MAXIMUM_SCRATCHPAD_BUFFERS {
        rollback_run(
            Seq::empty(),
            XhciDmaError::ScratchpadCountUnsupported(scratchpad_count),
            log,
            at,
        )
    } else {
        match regions_run(
            window,
            effective_limit(window.device_address_limit, supports_64_bit_addresses),
            secret,
            scratchpad_count,
            log,
            at,
        ) {
            None => None,
            Some((records, Some(cause), after)) => rollback_run(records, cause, log, after),
            Some((records, None, after)) => Some(
                (BuildEnd { records, released_pages: 0, cause: None, debt: None }, after),
            ),
        }
    }
}

/// An arena that could not give all its frames back.
#[derive(Debug, PartialEq, Eq)]
pub struct XhciDmaReleaseDebt {
    pub arena: XhciDmaArena,
    pub fault: XhciDmaReleaseFault,
}

/// An arena that could not be built.
#[derive(Debug, PartialEq, Eq)]
pub struct XhciDmaBuildFailure {
    pub cause: XhciDmaError,
    pub debt: Option<XhciDmaReleaseDebt>,
}

impl XhciDmaBuildFailure {
    #[verifier::allow_in_spec]
    pub fn cause(&self) -> XhciDmaError
        returns
            self.cause,
    {
        self.cause
    }

    pub fn has_release_debt(&self) -> (owed: bool)
        ensures
            owed == (self.debt is Some),
    {
        self.debt.is_some()
    }

    pub fn into_release_debt(self) -> (debt: Option<XhciDmaReleaseDebt>)
        ensures
            debt == self.debt,
    {
        self.debt
    }
}

impl XhciDmaReleaseDebt {
    #[verifier::allow_in_spec]
    pub fn fault(&self) -> XhciDmaReleaseFault
        returns
            self.fault,
    {
        self.fault
    }

    pub fn region(&self, purpose: XhciDmaPurpose) -> (record: Option<XhciDmaRegionRecord>)
        ensures
            record == region_for(self.arena.records@, purpose, 0),
    {
        self.arena.region(purpose)
    }

    /// Tries once more to give the frames back.
    pub fn retry<P: DmaPlatform>(
        self,
        quiescence: XhciDmaQuiescence,
        trace: &mut DmaTrace<P>,
    ) -> (result: Result<XhciDmaReleaseReceipt, XhciDmaReleaseDebt>)
        requires
            self.arena.wf(),
        ensures
            crate::trace::continues(final(trace).log(), old(trace).log()),
            releases(self.arena, quiescence, old(trace).log(), final(trace).log(), result),
    {
        self.arena.release(quiescence, trace)
    }
}

/// Whether a build result tells how the building ended.
pub open spec fn build_ends_as(
    window: IdentityDmaWindow,
    scratchpad_count: u16,
    supports_64_bit_addresses: bool,
    secret: u64,
    result: Result<XhciDmaArena, XhciDmaBuildFailure>,
    end: BuildEnd,
) -> bool {
    match result {
        Ok(arena) => {
            &&& end.cause is None
            &&& arena.identity == window
            &&& arena.records@ == end.records
            &&& arena.released_pages == 0
            &&& arena.scratchpad_count == scratchpad_count
            &&& arena.supports_64_bit_addresses == supports_64_bit_addresses
            &&& arena.effective_device_limit == effective_limit(
                window.device_address_limit,
                supports_64_bit_addresses,
            )
            &&& arena.secret == secret
            &&& arena.arena_root == arena_root_of(
                window,
                scratchpad_count,
                supports_64_bit_addresses,
                end.records,
                secret,
            )
        },
        Err(failure) => {
            &&& end.cause == Some(failure.cause)
            &&& match failure.debt {
                None => end.debt is None,
                Some(debt) => {
                    &&& end.debt == Some(debt.fault)
                    &&& debt.arena.identity == window
                    &&& debt.arena.records@ == end.records
                    &&& debt.arena.released_pages == end.released_pages
                    &&& debt.arena.scratchpad_count == scratchpad_count
                    &&& debt.arena.supports_64_bit_addresses == supports_64_bit_addresses
                    &&& debt.arena.effective_device_limit == effective_limit(
                        window.device_address_limit,
                        supports_64_bit_addresses,
                    )
                    &&& debt.arena.secret == secret
                    &&& debt.arena.arena_root == 0
                },
            }
        },
    }
}

/// Whether a release of an arena ended as it must.
pub open spec fn releases(
    arena: XhciDmaArena,
    quiescence: XhciDmaQuiescence,
    before: Seq<DmaEvent>,
    after: Seq<DmaEvent>,
    result: Result<XhciDmaReleaseReceipt, XhciDmaReleaseDebt>,
) -> bool {
    if quiescence.device != arena.identity.device || quiescence.generation
        != arena.identity.generation || quiescence.evidence_root == 0 {
        &&& result == Err::<XhciDmaReleaseReceipt, _>(
            XhciDmaReleaseDebt { arena, fault: XhciDmaReleaseFault::QuiescenceMismatch },
        )
        &&& after == before
    } else if nothing_held(arena.records@) {
        &&& result == Err::<XhciDmaReleaseReceipt, _>(
            XhciDmaReleaseDebt { arena, fault: XhciDmaReleaseFault::AlreadyReleased },
        )
        &&& after == before
    } else {
        forall|log: Seq<DmaEvent>| #[trigger]
            crate::trace::continues(log, after) ==> match release_run(
                arena.records@,
                arena.released_pages as int,
                arena.records@.len() as int,
                log,
                before.len() as int,
            ) {
                Some((records, released_pages, stopped, end)) => end == after.len()
                    && match result {
                    Ok(receipt) => stopped is None && receipt == receipt_of(
                        arena.identity,
                        arena.arena_root,
                        released_pages as usize,
                    ) && receipt.released_pages == released_pages,
                    Err(debt) => stopped == Some(debt.fault) && debt.arena.wf()
                        && debt.arena.same_arena(&arena) && debt.arena.records@ == records
                        && debt.arena.released_pages == released_pages,
                },
                None => false,
            }
    }
}

impl XhciDmaArena {
    fn make_ready(&mut self)
        requires
            old(self).wf(),
            old(self).released_pages == 0,
        ensures
            final(self).wf(),
            final(self).same_arena(old(self)),
            final(self).released_pages == 0,
            final(self).records@ == all_ready(old(self).records@),
    {
        let mut index: usize = 0;
        let ghost before = self.records@;
        while index < self.records.len()
            invariant
                index <= self.records@.len(),
                self.wf(),
                self.same_arena(old(self)),
                self.released_pages == 0,
                before == old(self).records@,
                self.records@.len() == before.len(),
                forall|i: int|
                    0 <= i < index ==> #[trigger] self.records@[i] == in_phase(
                        before[i],
                        XhciDmaRegionPhase::Ready,
                    ),
                forall|i: int|
                    index <= i < before.len() ==> #[trigger] self.records@[i] == before[i],
            decreases self.records@.len() - index,
        {
            let ghost held = self.records@;
            let ready = XhciDmaRegionRecord {
                phase: XhciDmaRegionPhase::Ready,
                ..self.records[index]
            };
            self.records.set(index, ready);
            proof {
                lemma_released_update(held, index as int, ready);
                lemma_released_member(held, index as int);
            }
            index = index + 1;
        }
        assert(self.records@ =~= all_ready(before));
    }

    fn allocate_all_regions<P: DmaPlatform>(&mut self, trace: &mut DmaTrace<P>) -> (failed: Option<
        XhciDmaError,
    >)
        requires
            old(self).wf(),
            old(self).records@.len() == 0,
            old(self).scratchpad_count <= MAXIMUM_SCRATCHPAD_BUFFERS,
        ensures
            final(self).wf(),
            final(self).same_arena(old(self)),
            final(self).released_pages == 0,
            crate::trace::continues(final(trace).log(), old(trace).log()),
            forall|log: Seq<DmaEvent>| #[trigger]
                crate::trace::continues(log, final(trace).log()) ==> regions_run(
                    old(self).identity,
                    old(self).effective_device_limit,
                    old(self).secret,
                    old(self).scratchpad_count,
                    log,
                    old(trace).log().len() as int,
                ) == Some((final(self).records@, failed, final(trace).log().len() as int)),
    {
        let ghost plan = region_plan(self.scratchpad_count);
        let ghost window = self.identity;
        let ghost limit = self.effective_device_limit;
        let ghost secret = self.secret;
        let mut steps: Vec<(XhciDmaPurpose, usize)> = Vec::new();
        steps.push((XhciDmaPurpose::Dcbaa, 1));
        steps.push((XhciDmaPurpose::CommandRing, 1));
        steps.push((XhciDmaPurpose::EventRing, 1));
        steps.push((XhciDmaPurpose::EventRingSegmentTable, 1));
        if self.scratchpad_count != 0 {
            steps.push(
                (XhciDmaPurpose::ScratchpadPointerArray, pointer_pages(self.scratchpad_count)),
            );
            steps.push((XhciDmaPurpose::ScratchpadBuffers, self.scratchpad_count as usize));
        }
        assert(steps@ =~= plan);
        let mut index: usize = 0;
        assert(self.records@ =~= Seq::<XhciDmaRegionRecord>::empty());
        while index < steps.len()
            invariant
                index <= steps@.len(),
                steps@ == plan,
                plan == region_plan(self.scratchpad_count),
                self.scratchpad_count <= MAXIMUM_SCRATCHPAD_BUFFERS,
                self.wf(),
                self.same_arena(old(self)),
                self.released_pages == 0,
                window == self.identity,
                limit == self.effective_device_limit,
                secret == self.secret,
                crate::trace::continues(trace.log(), old(trace).log()),
                forall|log: Seq<DmaEvent>| #[trigger]
                    crate::trace::continues(log, trace.log()) ==> plan_run(
                        window,
                        limit,
                        secret,
                        plan,
                        0,
                        Seq::empty(),
                        log,
                        old(trace).log().len() as int,
                    ) == plan_run(
                        window,
                        limit,
                        secret,
                        plan,
                        index as int,
                        self.records@,
                        log,
                        trace.log().len() as int,
                    ),
            decreases steps@.len() - index,
        {
            let ghost head = trace.log();
            let failed = self.allocate_region(steps[index].0, steps[index].1, trace);
            assert forall|log: Seq<DmaEvent>| #[trigger]
                crate::trace::continues(log, trace.log()) implies crate::trace::continues(
                log,
                head,
            ) by {}
            match failed {
                Some(error) => {
                    return Some(error);
                },
                None => {},
            }
            index = index + 1;
        }
        if self.scratchpad_count != 0 {
            let ghost head = trace.log();
            let failed = self.initialize_scratchpad_links(trace);
            assert forall|log: Seq<DmaEvent>| #[trigger]
                crate::trace::continues(log, trace.log()) implies crate::trace::continues(
                log,
                head,
            ) by {}
            match failed {
                Some(error) => {
                    return Some(error);
                },
                None => {},
            }
        }
        self.make_ready();
        None
    }

    fn finish_arena_root(&mut self)
        ensures
            final(self).arena_root == arena_root_of(
                old(self).identity,
                old(self).scratchpad_count,
                old(self).supports_64_bit_addresses,
                old(self).records@,
                old(self).secret,
            ),
            *final(self) == (XhciDmaArena {
                arena_root: final(self).arena_root,
                ..*old(self)
            }),
    {
        let mut sealer = Sealer::new(self.secret ^ ARENA_ROOT_DOMAIN).word(
            self.identity.proof_root,
        ).word(self.identity.generation as u64).word(self.scratchpad_count as u64).word(
            flag(self.supports_64_bit_addresses),
        );
        let mut index: usize = 0;
        assert(sealer.words() =~= arena_words(
            self.identity,
            self.scratchpad_count,
            self.supports_64_bit_addresses,
            self.records@.take(0),
        ));
        while index < self.records.len()
            invariant
                *self == *old(self),
                index <= self.records@.len(),
                sealer.seed() == self.secret ^ ARENA_ROOT_DOMAIN,
                sealer.words() == arena_words(
                    self.identity,
                    self.scratchpad_count,
                    self.supports_64_bit_addresses,
                    self.records@.take(index as int),
                ),
            decreases self.records@.len() - index,
        {
            proof {
                assert(self.records@.take(index + 1).drop_last() =~= self.records@.take(
                    index as int,
                ));
            }
            sealer = sealer.word(self.records[index].region_root);
            index = index + 1;
        }
        assert(self.records@.take(index as int) =~= self.records@);
        self.arena_root = canonical_root(sealer.root(), ARENA_ROOT_DOMAIN);
    }

    fn rollback_build<P: DmaPlatform>(
        self,
        cause: XhciDmaError,
        trace: &mut DmaTrace<P>,
    ) -> (failure: XhciDmaBuildFailure)
        requires
            self.wf(),
            self.released_pages == 0,
        ensures
            crate::trace::continues(final(trace).log(), old(trace).log()),
            forall|log: Seq<DmaEvent>| #[trigger]
                crate::trace::continues(log, final(trace).log()) ==> match rollback_run(
                    self.records@,
                    cause,
                    log,
                    old(trace).log().len() as int,
                ) {
                    Some((end, after)) => after == final(trace).log().len() && end.cause == Some(
                        failure.cause,
                    ) && match failure.debt {
                        None => end.debt is None,
                        Some(debt) => end.debt == Some(debt.fault) && debt.arena.same_arena(&self)
                            && debt.arena.records@
                            == end.records && debt.arena.released_pages == end.released_pages,
                    },
                    None => false,
                },
            failure.debt matches Some(debt) ==> debt.arena.wf(),
    {
        if self.records.len() == 0 {
            return XhciDmaBuildFailure { cause, debt: None };
        }
        let mut arena = self;
        let debt = match arena.release_records(trace) {
            Ok(_) => None,
            Err(fault) => Some(XhciDmaReleaseDebt { arena, fault }),
        };
        XhciDmaBuildFailure { cause, debt }
    }

    /// Builds the arena of a controller: four pages, and the scratchpad where
    /// the controller asks for one.
    pub fn allocate<P: DmaPlatform>(
        trace: &mut DmaTrace<P>,
        identity: IdentityDmaWindow,
        scratchpad_count: u16,
        supports_64_bit_addresses: bool,
        secret: u64,
    ) -> (result: Result<Self, XhciDmaBuildFailure>)
        ensures
            crate::trace::continues(final(trace).log(), old(trace).log()),
            forall|log: Seq<DmaEvent>| #[trigger]
                crate::trace::continues(log, final(trace).log()) ==> match build_run(
                    identity,
                    scratchpad_count,
                    supports_64_bit_addresses,
                    secret,
                    log,
                    old(trace).log().len() as int,
                ) {
                    Some((end, after)) => after == final(trace).log().len() && build_ends_as(
                        identity,
                        scratchpad_count,
                        supports_64_bit_addresses,
                        secret,
                        result,
                        end,
                    ),
                    None => false,
                },
            match result {
                Ok(arena) => arena.wf(),
                Err(failure) => failure.debt matches Some(debt) ==> debt.arena.wf(),
            },
    {
        let effective_device_limit: u64 = effective_limit(
            identity.device_address_limit,
            supports_64_bit_addresses,
        );
        let mut arena = XhciDmaArena {
            identity,
            records: Vec::new(),
            scratchpad_count,
            supports_64_bit_addresses,
            effective_device_limit,
            secret,
            arena_root: 0,
            released_pages: 0,
        };
        assert(arena.records@ =~= Seq::<XhciDmaRegionRecord>::empty());
        let failed = if secret == 0 {
            Some(XhciDmaError::InvalidSecret)
        } else if scratchpad_count > MAXIMUM_SCRATCHPAD_BUFFERS {
            Some(XhciDmaError::ScratchpadCountUnsupported(scratchpad_count))
        } else {
            arena.allocate_all_regions(trace)
        };
        let ghost built = trace.log();
        match failed {
            Some(cause) => {
                let failure = arena.rollback_build(cause, trace);
                assert forall|log: Seq<DmaEvent>| #[trigger]
                    crate::trace::continues(log, trace.log()) implies crate::trace::continues(
                    log,
                    built,
                ) by {}
                Err(failure)
            },
            None => {
                arena.finish_arena_root();
                Ok(arena)
            },
        }
    }

    /// Gives the arena's frames back, once its controller is quiescent.
    pub fn release<P: DmaPlatform>(
        self,
        quiescence: XhciDmaQuiescence,
        trace: &mut DmaTrace<P>,
    ) -> (result: Result<XhciDmaReleaseReceipt, XhciDmaReleaseDebt>)
        requires
            self.wf(),
        ensures
            crate::trace::continues(final(trace).log(), old(trace).log()),
            releases(self, quiescence, old(trace).log(), final(trace).log(), result),
    {
        if quiescence.device != self.identity.device || quiescence.generation
            != self.identity.generation || quiescence.evidence_root == 0 {
            return Err(
                XhciDmaReleaseDebt { arena: self, fault: XhciDmaReleaseFault::QuiescenceMismatch },
            );
        }
        let mut arena = self;
        match arena.release_records(trace) {
            Ok(receipt) => Ok(receipt),
            Err(fault) => Err(XhciDmaReleaseDebt { arena, fault }),
        }
    }
}

proof fn lemma_released_member(records: Seq<XhciDmaRegionRecord>, at: int)
    requires
        0 <= at < records.len(),
    ensures
        0 <= released_weight(records[at]) <= released_total(records),
    decreases records.len(),
{
    lemma_released_nonnegative(records.drop_last());
    if at < records.len() - 1 {
        lemma_released_member(records.drop_last(), at);
        assert(records.drop_last()[at] == records[at]);
    }
}

proof fn lemma_released_nonnegative(records: Seq<XhciDmaRegionRecord>)
    ensures
        0 <= released_total(records),
    decreases records.len(),
{
    if records.len() > 0 {
        lemma_released_nonnegative(records.drop_last());
    }
}

/// The writes that store bytes from an address on.
pub open spec fn writes_of(cpu_address: int, bytes: Seq<u8>) -> Seq<DmaEvent> {
    Seq::new(
        bytes.len(),
        |i: int| DmaEvent::WriteByte { cpu_address: (cpu_address + i) as usize, value: bytes[i] },
    )
}

/// The reads that fetch bytes from an address on.
pub open spec fn reads_of(cpu_address: int, bytes: Seq<u8>) -> Seq<DmaEvent> {
    Seq::new(
        bytes.len(),
        |i: int| DmaEvent::ReadByte { cpu_address: (cpu_address + i) as usize, value: bytes[i] },
    )
}

impl XhciDmaArena {
    /// The active region that a token stands for.
    pub open spec fn region_of(&self, token: XhciDmaRegionToken) -> Result<
        XhciDmaRegionRecord,
        XhciDmaError,
    > {
        if token.generation != self.identity.generation {
            Err(XhciDmaError::StaleRegionToken)
        } else {
            match region_for(self.records@, token.purpose, 0) {
                None => Err(XhciDmaError::MissingRegion(token.purpose)),
                Some(record) => if record.phase == XhciDmaRegionPhase::Zeroed || record.phase
                    == XhciDmaRegionPhase::Ready {
                    Ok(record)
                } else {
                    Err(XhciDmaError::InactiveRegion(token.purpose))
                },
            }
        }
    }

    /// The region that a transfer touches, or what the transfer is refused for.
    pub open spec fn transfer(
        &self,
        token: XhciDmaRegionToken,
        offset: usize,
        length: int,
    ) -> Result<
        XhciDmaRegionRecord,
        XhciDmaError,
    > {
        if length == 0 {
            Err(XhciDmaError::EmptyTransfer)
        } else {
            match self.region_of(token) {
                Err(error) => Err(error),
                Ok(record) => if offset + length > record.cpu_end - record.cpu_start {
                    Err(XhciDmaError::TransferOutsideRegion)
                } else {
                    Ok(record)
                },
            }
        }
    }

    fn record_for_token(&self, token: XhciDmaRegionToken) -> (result: Result<
        XhciDmaRegionRecord,
        XhciDmaError,
    >)
        requires
            self.wf(),
        ensures
            result == self.region_of(token),
            result matches Ok(record) ==> record.cpu_start <= record.cpu_end,
    {
        if token.generation != self.identity.generation {
            return Err(XhciDmaError::StaleRegionToken);
        }
        let record = match self.region(token.purpose) {
            None => {
                return Err(XhciDmaError::MissingRegion(token.purpose));
            },
            Some(record) => record,
        };
        if record.phase != XhciDmaRegionPhase::Zeroed && record.phase
            != XhciDmaRegionPhase::Ready {
            return Err(XhciDmaError::InactiveRegion(token.purpose));
        }
        Ok(record)
    }

    fn check_transfer(&self, token: XhciDmaRegionToken, offset: usize, length: usize) -> (result:
        Result<usize, XhciDmaError>)
        requires
            self.wf(),
        ensures
            match self.transfer(token, offset, length as int) {
                Err(error) => result == Err::<usize, XhciDmaError>(error),
                Ok(record) => result == Ok::<usize, XhciDmaError>(
                    (record.cpu_start + offset) as usize,
                ) && record.cpu_start + offset + length <= usize::MAX,
            },
    {
        if length == 0 {
            return Err(XhciDmaError::EmptyTransfer);
        }
        let record = match self.record_for_token(token) {
            Err(error) => {
                return Err(error);
            },
            Ok(record) => record,
        };
        match validate_transfer(record, offset, length) {
            Err(error) => Err(error),
            Ok(()) => Ok(record.cpu_start + offset),
        }
    }

    pub fn write<P: DmaPlatform>(
        &self,
        token: XhciDmaRegionToken,
        offset: usize,
        bytes: &[u8],
        trace: &mut DmaTrace<P>,
    ) -> (result: Result<(), XhciDmaError>)
        requires
            self.wf(),
        ensures
            match self.transfer(token, offset, bytes@.len() as int) {
                Err(error) => result == Err::<(), XhciDmaError>(error) && final(trace).log()
                    == old(trace).log(),
                Ok(record) => result is Ok && final(trace).log() == old(trace).log() + writes_of(
                    record.cpu_start + offset,
                    bytes@,
                ),
            },
    {
        let start: usize = match self.check_transfer(token, offset, bytes.len()) {
            Err(error) => {
                return Err(error);
            },
            Ok(start) => start,
        };
        let mut index: usize = 0;
        assert(trace.log() =~= old(trace).log() + writes_of(start as int, bytes@.take(0)));
        while index < bytes.len()
            invariant
                index <= bytes@.len(),
                start + bytes@.len() <= usize::MAX,
                trace.log() == old(trace).log() + writes_of(
                    start as int,
                    bytes@.take(index as int),
                ),
            decreases bytes@.len() - index,
        {
            trace.write_byte(start + index, bytes[index]);
            index = index + 1;
            assert(trace.log() =~= old(trace).log() + writes_of(
                start as int,
                bytes@.take(index as int),
            ));
        }
        assert(bytes@.take(index as int) =~= bytes@);
        Ok(())
    }

    pub fn read<P: DmaPlatform>(
        &self,
        token: XhciDmaRegionToken,
        offset: usize,
        output: &mut [u8],
        trace: &mut DmaTrace<P>,
    ) -> (result: Result<(), XhciDmaError>)
        requires
            self.wf(),
        ensures
            final(output)@.len() == old(output)@.len(),
            match self.transfer(token, offset, old(output)@.len() as int) {
                Err(error) => result == Err::<(), XhciDmaError>(error) && final(trace).log()
                    == old(trace).log() && final(output)@ == old(output)@,
                Ok(record) => result is Ok && final(trace).log() == old(trace).log() + reads_of(
                    record.cpu_start + offset,
                    final(output)@,
                ),
            },
    {
        let start: usize = match self.check_transfer(token, offset, output.len()) {
            Err(error) => {
                return Err(error);
            },
            Ok(start) => start,
        };
        let length: usize = output.len();
        let mut index: usize = 0;
        assert(trace.log() =~= old(trace).log() + reads_of(start as int, output@.take(0)));
        while index < length
            invariant
                index <= length,
                length == output@.len(),
                length == old(output)@.len(),
                start + length <= usize::MAX,
                trace.log() == old(trace).log() + reads_of(
                    start as int,
                    output@.take(index as int),
                ),
            decreases length - index,
        {
            let value: u8 = trace.read_byte(start + index);
            output[index] = value;
            index = index + 1;
            assert(trace.log() =~= old(trace).log() + reads_of(
                start as int,
                output@.take(index as int),
            ));
        }
        assert(output@.take(index as int) =~= output@);
        Ok(())
    }

    #[verifier::allow_in_spec]
    pub fn device(&self) -> PciAddress
        returns
            self.identity.device,
    {
        self.identity.device
    }

    #[verifier::allow_in_spec]
    pub fn generation(&self) -> u32
        returns
            self.identity.generation,
    {
        self.identity.generation
    }

    #[verifier::allow_in_spec]
    pub fn scratchpad_count(&self) -> u16
        returns
            self.scratchpad_count,
    {
        self.scratchpad_count
    }

    #[verifier::allow_in_spec]
    pub fn supports_64_bit_addresses(&self) -> bool
        returns
            self.supports_64_bit_addresses,
    {
        self.supports_64_bit_addresses
    }

    #[verifier::allow_in_spec]
    pub fn arena_root(&self) -> u64
        returns
            self.arena_root,
    {
        self.arena_root
    }

    pub fn region_count(&self) -> (count: usize)
        ensures
            count == self.records@.len(),
    {
        self.records.len()
    }
}

/// What an event leaves at an address.
pub open spec fn written_by(event: DmaEvent, cpu_address: usize) -> Option<u8> {
    match event {
        DmaEvent::WriteByte { cpu_address: to, value } => if to == cpu_address {
            Some(value)
        } else {
            None
        },
        DmaEvent::WriteWord { cpu_address: to, value } => if to <= cpu_address < to + 8 {
            Some((value >> ((cpu_address - to) * 8) as u64) as u8)
        } else {
            None
        },
        DmaEvent::Zero { cpu_start, bytes } => if cpu_start <= cpu_address < cpu_start + bytes {
            Some(0)
        } else {
            None
        },
        _ => None,
    }
}

/// What a transcript last left at an address.
pub open spec fn last_written(log: Seq<DmaEvent>, cpu_address: usize) -> Option<u8>
    decreases log.len(),
{
    if log.len() == 0 {
        None
    } else {
        match written_by(log.last(), cpu_address) {
            Some(value) => Some(value),
            None => last_written(log.drop_last(), cpu_address),
        }
    }
}

/// A transcript of memory that keeps what it was given.
pub open spec fn keeps_memory(log: Seq<DmaEvent>) -> bool {
    forall|i: int|
        0 <= i < log.len() ==> match #[trigger] log[i] {
            DmaEvent::ReadByte { cpu_address, value } => last_written(log.take(i), cpu_address)
                is Some ==> last_written(log.take(i), cpu_address) == Some(value),
            _ => true,
        }
}

proof fn lemma_reads_write_nothing(
    log: Seq<DmaEvent>,
    start: int,
    bytes: Seq<u8>,
    cpu_address: usize,
)
    ensures
        last_written(log + reads_of(start, bytes), cpu_address) == last_written(log, cpu_address),
    decreases bytes.len(),
{
    let all = log + reads_of(start, bytes);
    if bytes.len() == 0 {
        assert(all =~= log);
    } else {
        assert(all.drop_last() =~= log + reads_of(start, bytes.drop_last()));
        lemma_reads_write_nothing(log, start, bytes.drop_last(), cpu_address);
    }
}

proof fn lemma_the_written_stays(log: Seq<DmaEvent>, start: int, bytes: Seq<u8>, at: int)
    requires
        0 <= at < bytes.len(),
        0 <= start,
        start + bytes.len() <= usize::MAX,
    ensures
        last_written(log + writes_of(start, bytes), (start + at) as usize) == Some(bytes[at]),
    decreases bytes.len(),
{
    let all = log + writes_of(start, bytes);
    assert(all.last() == (DmaEvent::WriteByte {
        cpu_address: (start + bytes.len() - 1) as usize,
        value: bytes.last(),
    }));
    assert(all.drop_last() =~= log + writes_of(start, bytes.drop_last()));
    if at < bytes.len() - 1 {
        lemma_the_written_stays(log, start, bytes.drop_last(), at);
    }
}

/// Where memory keeps what it is given, a read through a token gives back the
/// bytes that a write through it stored.
pub proof fn law_a_read_gives_back_the_written(
    log: Seq<DmaEvent>,
    start: int,
    stored: Seq<u8>,
    fetched: Seq<u8>,
)
    requires
        0 <= start,
        start + stored.len() <= usize::MAX,
        stored.len() == fetched.len(),
        keeps_memory(log + writes_of(start, stored) + reads_of(start, fetched)),
    ensures
        fetched == stored,
{
    let written = log + writes_of(start, stored);
    let all = written + reads_of(start, fetched);
    assert forall|i: int| 0 <= i < fetched.len() implies fetched[i] == stored[i] by {
        let place = written.len() as int + i;
        assert(all[place] == reads_of(start, fetched)[i]);
        assert(all.take(place) =~= written + reads_of(start, fetched.take(i)));
        lemma_reads_write_nothing(written, start, fetched.take(i), (start + i) as usize);
        lemma_the_written_stays(log, start, stored, i);
    }
    assert(fetched =~= stored);
}

/// Whether a release stopped at a region: the region stays as a debt, those
/// before it are as they were, and those after it hold nothing.
#[verifier::opaque]
pub open spec fn stopped_at(
    records: Seq<XhciDmaRegionRecord>,
    after: Seq<XhciDmaRegionRecord>,
    place: int,
) -> bool {
    &&& 0 <= place < records.len()
    &&& after.len() == records.len()
    &&& after[place] == in_phase(records[place], XhciDmaRegionPhase::ReleaseDebt)
    &&& forall|j: int| 0 <= j < place ==> #[trigger] after[j] == records[j]
    &&& forall|j: int| place < j < after.len() ==> (#[trigger] after[j]).phase.holds_nothing()
}

proof fn lemma_stopped_before(
    records: Seq<XhciDmaRegionRecord>,
    at: int,
    record: XhciDmaRegionRecord,
    after: Seq<XhciDmaRegionRecord>,
    place: int,
)
    requires
        place < at < records.len(),
        stopped_at(records.update(at, record), after, place),
    ensures
        stopped_at(records, after, place),
{
    reveal(stopped_at);
    let given = records.update(at, record);
    assert forall|j: int| 0 <= j < place implies #[trigger] after[j] == records[j] by {
        assert(given[j] == records[j]);
    }
}

/// A release that nothing stopped leaves nothing held, and counts exactly the
/// pages that were given back. One that a region stopped keeps that region as a
/// debt and leaves every region before it as it was.
pub proof fn law_a_release_loses_no_frame(
    records: Seq<XhciDmaRegionRecord>,
    left: int,
    log: Seq<DmaEvent>,
    at: int,
    after: Seq<XhciDmaRegionRecord>,
    pages: int,
    stopped: Option<XhciDmaReleaseFault>,
    end: int,
)
    requires
        0 <= left <= records.len(),
        forall|i: int| left <= i < records.len() ==> (#[trigger] records[i]).phase.holds_nothing(),
        release_run(records, released_total(records), left, log, at) == Some(
            (after, pages, stopped, end),
        ),
    ensures
        pages == released_total(after),
        stopped is None ==> nothing_held(after) && after.len() == records.len(),
        stopped is Some ==> exists|place: int|
            place < left && #[trigger] stopped_at(records, after, place),
    decreases left,
{
    if left > 0 {
        let record = records[left - 1];
        if record.phase.holds_nothing() {
            law_a_release_loses_no_frame(records, left - 1, log, at, after, pages, stopped, end);
        } else {
            let debt = in_phase(record, XhciDmaRegionPhase::ReleaseDebt);
            let done = in_phase(record, XhciDmaRegionPhase::Released);
            lemma_released_update(records, left - 1, debt);
            lemma_released_update(records, left - 1, done);
            let refused = match log[at] {
                DmaEvent::Release { refused, .. } => refused is Some,
                _ => false,
            };
            if refused {
                assert(stopped_at(records, after, left - 1)) by {
                    reveal(stopped_at);
                }
            } else {
                let given = records.update(left - 1, done);
                law_a_release_loses_no_frame(
                    given,
                    left - 1,
                    log,
                    at + 1,
                    after,
                    pages,
                    stopped,
                    end,
                );
                if stopped is Some {
                    let place = choose|place: int|
                        place < left - 1 && #[trigger] stopped_at(given, after, place);
                    lemma_stopped_before(records, left - 1, done, after, place);
                }
            }
        }
    }
}

/// An arena whose building failed without a debt holds nothing.
pub proof fn law_a_failed_build_without_debt_holds_nothing(
    records: Seq<XhciDmaRegionRecord>,
    cause: XhciDmaError,
    log: Seq<DmaEvent>,
    at: int,
    finish: BuildEnd,
    end: int,
)
    requires
        released_total(records) == 0,
        rollback_run(records, cause, log, at) == Some((finish, end)),
        finish.debt is None,
    ensures
        nothing_held(finish.records),
{
    if records.len() > 0 && !nothing_held(records) {
        law_a_release_loses_no_frame(
            records,
            records.len() as int,
            log,
            at,
            finish.records,
            finish.released_pages,
            finish.debt,
            end,
        );
    }
}

/// Whether a region lies inside a window and below a limit, for the device and
/// for the CPU, and is sealed.
pub open spec fn region_inside(
    window: IdentityDmaWindow,
    limit: u64,
    secret: u64,
    record: XhciDmaRegionRecord,
) -> bool {
    &&& record.device == window.device
    &&& record.generation == window.generation
    &&& window.physical_start <= record.physical_start
    &&& record.physical_end == record.physical_start + record.page_count * PAGE_SIZE
    &&& record.physical_end <= window.physical_end
    &&& record.physical_end - 1 <= limit
    &&& record.device_address_start == record.physical_start
    &&& record.device_address_end == record.physical_end
    &&& window.cpu_start <= record.cpu_start
    &&& record.cpu_end == record.cpu_start + record.page_count * PAGE_SIZE
    &&& record.cpu_end <= window.cpu_end
    &&& record.region_root == record.root_of(secret)
}

proof fn lemma_a_plan_places(
    window: IdentityDmaWindow,
    limit: u64,
    secret: u64,
    plan: Seq<(XhciDmaPurpose, usize)>,
    index: int,
    records: Seq<XhciDmaRegionRecord>,
    log: Seq<DmaEvent>,
    at: int,
)
    requires
        0 <= index == records.len() <= plan.len(),
        forall|i: int|
            0 <= i < records.len() ==> region_inside(window, limit, secret, #[trigger] records[i])
                && records[i].purpose == plan[i].0 && records[i].page_count == plan[i].1,
    ensures
        plan_run(window, limit, secret, plan, index, records, log, at) matches Some(
            (built, None, _),
        ) ==> built.len() == plan.len() && forall|i: int|
            0 <= i < built.len() ==> region_inside(window, limit, secret, #[trigger] built[i])
                && built[i].purpose == plan[i].0 && built[i].page_count == plan[i].1,
    decreases plan.len() - index,
{
    if index < plan.len() {
        match region_run(window, limit, secret, records, plan[index].0, plan[index].1, log, at) {
            Some((grown, None, after)) => {
                let record = grown[index];
                assert(region_inside(window, limit, secret, record)) by {
                    let unsealed = XhciDmaRegionRecord { region_root: 0, ..record };
                    assert(unsealed.words() =~= record.words());
                }
                lemma_a_plan_places(
                    window,
                    limit,
                    secret,
                    plan,
                    index + 1,
                    grown,
                    log,
                    after,
                );
            },
            _ => {},
        }
    }
}

/// A built arena has exactly the planned regions, each ready, sealed, inside
/// the window and within reach of the device.
pub proof fn law_a_built_arena_lies_inside_its_window(
    window: IdentityDmaWindow,
    scratchpad_count: u16,
    supports_64_bit_addresses: bool,
    secret: u64,
    log: Seq<DmaEvent>,
    at: int,
    finish: BuildEnd,
    end: int,
)
    requires
        build_run(window, scratchpad_count, supports_64_bit_addresses, secret, log, at) == Some(
            (finish, end),
        ),
        finish.cause is None,
    ensures
        finish.records.len() == region_plan(scratchpad_count).len(),
        forall|i: int|
            0 <= i < finish.records.len() ==> {
                &&& region_inside(
                    window,
                    effective_limit(window.device_address_limit, supports_64_bit_addresses),
                    secret,
                    #[trigger] finish.records[i],
                )
                &&& finish.records[i].phase == XhciDmaRegionPhase::Ready
                &&& finish.records[i].purpose == region_plan(scratchpad_count)[i].0
                &&& finish.records[i].page_count == region_plan(scratchpad_count)[i].1
            },
{
    let limit = effective_limit(window.device_address_limit, supports_64_bit_addresses);
    let plan = region_plan(scratchpad_count);
    lemma_a_plan_places(window, limit, secret, plan, 0, Seq::empty(), log, at);
    match plan_run(window, limit, secret, plan, 0, Seq::empty(), log, at) {
        Some((built, None, _)) => {
            assert(finish.records == all_ready(built));
            assert forall|i: int| 0 <= i < finish.records.len() implies region_inside(
                window,
                limit,
                secret,
                #[trigger] finish.records[i],
            ) && finish.records[i].phase == XhciDmaRegionPhase::Ready && finish.records[i].purpose
                == plan[i].0 && finish.records[i].page_count == plan[i].1 by {
                assert(region_inside(window, limit, secret, built[i]));
                assert(finish.records[i].words() =~= built[i].words());
            }
        },
        _ => {},
    }
}


/// The event that zeroes a region.
pub open spec fn zeroing(record: XhciDmaRegionRecord) -> DmaEvent {
    DmaEvent::Zero {
        cpu_start: record.cpu_start,
        bytes: (record.cpu_end - record.cpu_start) as usize,
    }
}

/// The event that stores a device address in a region.
pub open spec fn pointing(record: XhciDmaRegionRecord, offset: int, target: int) -> DmaEvent {
    DmaEvent::WriteWord { cpu_address: (record.cpu_start + offset) as usize, value: target as u64 }
}

/// Whether an event stands in a part of a transcript.
pub open spec fn happened(log: Seq<DmaEvent>, from: int, to: int, event: DmaEvent) -> bool {
    exists|i: int| from <= i < to && #[trigger] log[i] == event
}

proof fn lemma_happened_stays(log: Seq<DmaEvent>, from: int, to: int, later: int, event: DmaEvent)
    requires
        happened(log, from, to, event),
        to <= later,
    ensures
        happened(log, from, later, event),
{
    let place = choose|i: int| from <= i < to && #[trigger] log[i] == event;
    assert(log[place] == event);
}

proof fn lemma_planned_regions_are_zeroed(
    window: IdentityDmaWindow,
    limit: u64,
    secret: u64,
    plan: Seq<(XhciDmaPurpose, usize)>,
    index: int,
    records: Seq<XhciDmaRegionRecord>,
    log: Seq<DmaEvent>,
    start: int,
    at: int,
    grown: Seq<XhciDmaRegionRecord>,
    end: int,
)
    requires
        start <= at,
        plan_run(window, limit, secret, plan, index, records, log, at) == Some(
            (grown, None::<XhciDmaError>, end),
        ),
        forall|k: int|
            0 <= k < records.len() ==> happened(log, start, at, zeroing(#[trigger] records[k])),
    ensures
        at <= end,
        forall|k: int|
            0 <= k < grown.len() ==> happened(log, start, end, zeroing(#[trigger] grown[k])),
    decreases plan.len() - index,
{
    if 0 <= index < plan.len() {
        let step = region_run(
            window,
            limit,
            secret,
            records,
            plan[index].0,
            plan[index].1,
            log,
            at,
        );
        let (next, _, after) = step.unwrap();
        assert forall|k: int| 0 <= k < next.len() implies happened(
            log,
            start,
            after,
            zeroing(#[trigger] next[k]),
        ) by {
            if k < records.len() {
                assert(next[k] == records[k]);
                lemma_happened_stays(log, start, at, after, zeroing(records[k]));
            } else {
                assert(log[at + 1] == zeroing(next[k]));
            }
        }
        lemma_planned_regions_are_zeroed(
            window,
            limit,
            secret,
            plan,
            index + 1,
            next,
            log,
            start,
            after,
            grown,
            end,
        );
    }
}

proof fn lemma_links_move_on(
    array: XhciDmaRegionRecord,
    buffers: XhciDmaRegionRecord,
    count: u16,
    index: int,
    log: Seq<DmaEvent>,
    at: int,
    end: int,
)
    requires
        0 <= index,
        pointers_run(array, buffers, count, index, log, at) == Some((None::<XhciDmaError>, end)),
    ensures
        at <= end,
        forall|k: int|
            index <= k < count ==> happened(
                log,
                at,
                end,
                #[trigger] pointing(
                    array,
                    k * 8,
                    buffers.device_address_start + k * PAGE_SIZE,
                ),
            ),
    decreases count - index,
{
    if index < count {
        lemma_links_move_on(array, buffers, count, index + 1, log, at + 1, end);
        assert forall|k: int| index <= k < count implies happened(
            log,
            at,
            end,
            #[trigger] pointing(array, k * 8, buffers.device_address_start + k * PAGE_SIZE),
        ) by {
            let event = pointing(array, k * 8, buffers.device_address_start + k * PAGE_SIZE);
            if k == index {
                assert(log[at] == event);
            } else {
                let place = choose|i: int| at + 1 <= i < end && #[trigger] log[i] == event;
                assert(log[place] == event);
            }
        }
    }
}

/// Every region of an arena that was built was zeroed first, over its whole length.
pub proof fn law_a_built_region_was_zeroed(
    window: IdentityDmaWindow,
    scratchpad_count: u16,
    supports_64_bit_addresses: bool,
    secret: u64,
    log: Seq<DmaEvent>,
    at: int,
    finish: BuildEnd,
    end: int,
)
    requires
        build_run(window, scratchpad_count, supports_64_bit_addresses, secret, log, at) == Some(
            (finish, end),
        ),
        finish.cause is None,
    ensures
        forall|k: int|
            0 <= k < finish.records.len() ==> happened(
                log,
                at,
                end,
                zeroing(#[trigger] finish.records[k]),
            ),
{
    let limit = effective_limit(window.device_address_limit, supports_64_bit_addresses);
    let plan = region_plan(scratchpad_count);
    let planned = plan_run(window, limit, secret, plan, 0, Seq::empty(), log, at);
    let (records, _, after) = planned.unwrap();
    lemma_planned_regions_are_zeroed(
        window,
        limit,
        secret,
        plan,
        0,
        Seq::empty(),
        log,
        at,
        at,
        records,
        after,
    );
    if scratchpad_count > 0 {
        let array = region_for(records, XhciDmaPurpose::ScratchpadPointerArray, 0).unwrap();
        let buffers = region_for(records, XhciDmaPurpose::ScratchpadBuffers, 0).unwrap();
        let linked = pointers_run(array, buffers, scratchpad_count, 0, log, after).unwrap().1;
        lemma_links_move_on(array, buffers, scratchpad_count, 0, log, after, linked);
    }
    assert forall|k: int| 0 <= k < finish.records.len() implies happened(
        log,
        at,
        end,
        zeroing(#[trigger] finish.records[k]),
    ) by {
        assert(zeroing(finish.records[k]) == zeroing(records[k]));
        lemma_happened_stays(log, at, after, end, zeroing(records[k]));
    }
}

/// A scratchpad that was linked is found by the device: each place of the pointer
/// array was given the address of its buffer, and after all of them the first place
/// of the context array was given the address of the pointer array.
pub proof fn law_a_linked_scratchpad_is_reachable(
    records: Seq<XhciDmaRegionRecord>,
    count: u16,
    log: Seq<DmaEvent>,
    at: int,
    end: int,
)
    requires
        links_run(records, count, log, at) == Some((None::<XhciDmaError>, end)),
    ensures
        region_for(records, XhciDmaPurpose::ScratchpadPointerArray, 0) matches Some(array)
            && region_for(records, XhciDmaPurpose::ScratchpadBuffers, 0) matches Some(buffers)
            && region_for(records, XhciDmaPurpose::Dcbaa, 0) matches Some(dcbaa) && {
            &&& forall|k: int|
                0 <= k < count ==> happened(
                    log,
                    at,
                    end - 1,
                    #[trigger] pointing(
                        array,
                        k * 8,
                        buffers.device_address_start + k * PAGE_SIZE,
                    ),
                )
            &&& log[end - 1] == pointing(dcbaa, 0, array.device_address_start as int)
        },
{
    let array = region_for(records, XhciDmaPurpose::ScratchpadPointerArray, 0).unwrap();
    let buffers = region_for(records, XhciDmaPurpose::ScratchpadBuffers, 0).unwrap();
    let linked = pointers_run(array, buffers, count, 0, log, at).unwrap().1;
    lemma_links_move_on(array, buffers, count, 0, log, at, linked);
}

} // verus!
