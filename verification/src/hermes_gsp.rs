//! The transport of Hermes personalities: profiles, queues, correlation and boot.

use crate::drivernet::fingerprint::GpuFingerprint;
use crate::gpu_abi::{
    GpuCompatibility, GpuCompatibilityManifest, GpuCompatibilityProof, GpuDeviceEvidence,
};
use crate::gpu_portability::portable_evidence;
use crate::hermes_abi::{
    CommandShape,
    HermesAdmissionCertificate, HermesAdmissionFault, HermesBootInstruction,
    HermesNormalizedCommand, HermesNormalizedEvent, HermesPciIdentity, HermesProbeEvidence,
    HermesServiceCurve, HermesTransportProfile, HERMES_INSTRUCTION_BYTES, HERMES_PROFILE_BYTES,
};
pub use crate::hermes_transport::{
    EventDisposition, Hermes, HermesLease, HermesTrace, Online, Profiled, ReceivedEvent, Staged,
};
use crate::hermes_trace::{HermesEvent, ImageShape};
use vstd::prelude::*;

verus! {

pub const NVIDIA_VENDOR_ID: u16 = 0x10de;

pub const PCI_CLASS_DISPLAY: u8 = 0x03;

pub const HERMES_OPCODE_NEGOTIATE: u32 = 0x0000_0001;

pub const HERMES_OPCODE_SHUTDOWN: u32 = 0x0000_0002;

pub const HERMES_BOOT_END: u32 = 0;

pub const HERMES_BOOT_WRITE32: u32 = 1;

pub const HERMES_BOOT_RMW32: u32 = 2;

pub const HERMES_BOOT_POLL32: u32 = 3;

pub const HERMES_BOOT_DELAY: u32 = 4;

pub const HERMES_BOOT_FIRMWARE_ADDRESS: u32 = 5;

pub const HERMES_BOOT_COMMAND_QUEUE: u32 = 6;

pub const HERMES_BOOT_EVENT_QUEUE: u32 = 7;

pub const HERMES_BOOT_DOORBELL: u32 = 8;

pub const HERMES_BOOT_FENCE: u32 = 9;

pub const HERMES_BOOT_ASSERT32: u32 = 10;

pub const MAXIMUM_WIRE_BYTES: usize = 4096;

pub const MAXIMUM_BOOT_STEPS: usize = 256;

pub const MAXIMUM_POLL_SAMPLES: usize = 65_536;

pub const MAXIMUM_BARS: usize = 6;

pub const DMA_GRANULE: usize = 4096;

/// How often a wait looks at the clock before it gives up.
pub const MAXIMUM_WAIT_SPINS: u64 = 0xffff_ffff_ffff_ffff;

#[derive(Clone, Copy, Debug, PartialEq, Eq, Structural)]
pub enum HermesFault {
    NotNvidia,
    NotDisplayController,
    NoPersonality,
    AmbiguousPersonality,
    PersonalityCapacity,
    PersonalityRejected,
    CompatibilityRejected,
    ProfileRejected,
    CodecRejected,
    FirmwareMissing,
    FirmwareUnexpected,
    FirmwareSize,
    FirmwareAlignment,
    FirmwareRejected,
    DeviceIsolation,
    BarUnavailable,
    MmioOutOfRange,
    MmioRead,
    MmioWrite,
    UnstableMmio,
    DmaAllocation,
    DmaAccess,
    DmaAddressOverflow,
    QueueGeometry,
    QueueFull,
    QueueCorrupt,
    ServiceCurveRejected,
    ServiceBacklogSaturated,
    ServiceArrivalEnvelopeExceeded,
    ServiceDeadlineUnsafe,
    ServiceTimeRegression,
    ServiceReservationCorrupt,
    PendingCapacity,
    DuplicateRequest,
    UnknownResponse,
    ResponseMismatch,
    ResponseExpired,
    ProtocolMismatch,
    RequiredFeatureMissing,
    BootFuelExhausted,
    BootInstructionRejected,
    DeadlineExpired,
    DeviceFault,
    RecoveryRequired,
    CorrelationSpaceExhausted,
    ArithmeticOverflow,
}

#[derive(Clone, Copy, Debug, PartialEq, Eq, Structural)]
pub enum DmaPurpose {
    Firmware,
    CommandRing,
    EventRing,
}

#[derive(Clone, Copy, Debug, PartialEq, Eq)]
pub struct MmioWindow<Handle: Copy> {
    pub handle: Handle,
    pub bar: u8,
    pub length: u64,
}

#[derive(Clone, Copy, Debug, PartialEq, Eq)]
pub struct DmaRegion<Handle: Copy> {
    pub handle: Handle,
    pub device_address: u64,
    pub length: usize,
    pub alignment: usize,
    pub purpose: DmaPurpose,
}

/// Whether a number is a power of two.
pub open spec fn power_of_two(n: nat) -> bool
    decreases n,
{
    n == 1 || (n > 1 && n % 2 == 0 && power_of_two(n / 2))
}

pub fn is_power_of_two(n: u64) -> (result: bool)
    ensures
        result == power_of_two(n as nat),
{
    if n == 0 {
        return false;
    }
    let mut rest: u64 = n;
    while rest % 2 == 0
        invariant
            rest > 0,
            power_of_two(rest as nat) == power_of_two(n as nat),
        decreases rest,
    {
        rest = rest / 2;
    }
    rest == 1
}

/// Whether a clock has come to a deadline, within half its range.
#[verifier::allow_in_spec]
pub fn tick_reached(now: u64, deadline: u64) -> bool
    returns
        (now.wrapping_sub(deadline) < 0x8000_0000_0000_0000),
{
    now.wrapping_sub(deadline) < 0x8000_0000_0000_0000
}

#[verifier::allow_in_spec]
pub fn earlier_deadline(first: u64, second: u64) -> u64
    returns
        (if tick_reached(first, second) {
            second
        } else {
            first
        }),
{
    if tick_reached(first, second) {
        second
    } else {
        first
    }
}

#[verifier::allow_in_spec]
pub fn word_u8(word: u64) -> Result<u8, HermesFault>
    returns
        (if word <= u8::MAX {
            Ok(word as u8)
        } else {
            Err(HermesFault::BootInstructionRejected)
        }),
{
    if word <= u8::MAX as u64 {
        Ok(word as u8)
    } else {
        Err(HermesFault::BootInstructionRejected)
    }
}

#[verifier::allow_in_spec]
pub fn word_u16(word: u64) -> Result<u16, HermesFault>
    returns
        (if word <= u16::MAX {
            Ok(word as u16)
        } else {
            Err(HermesFault::BootInstructionRejected)
        }),
{
    if word <= u16::MAX as u64 {
        Ok(word as u16)
    } else {
        Err(HermesFault::BootInstructionRejected)
    }
}

#[verifier::allow_in_spec]
pub fn word_u32(word: u64) -> Result<u32, HermesFault>
    returns
        (if word <= u32::MAX {
            Ok(word as u32)
        } else {
            Err(HermesFault::BootInstructionRejected)
        }),
{
    if word <= u32::MAX as u64 {
        Ok(word as u32)
    } else {
        Err(HermesFault::BootInstructionRejected)
    }
}

#[verifier::allow_in_spec]
pub fn usize_to_u32(value: usize) -> Result<u32, HermesFault>
    returns
        (if value <= u32::MAX {
            Ok(value as u32)
        } else {
            Err(HermesFault::ArithmeticOverflow)
        }),
{
    if value <= u32::MAX as usize {
        Ok(value as u32)
    } else {
        Err(HermesFault::ArithmeticOverflow)
    }
}

#[verifier::allow_in_spec]
pub fn map_admission_fault(fault: HermesAdmissionFault) -> HermesFault
    returns
        (match fault {
            HermesAdmissionFault::InvalidCurve | HermesAdmissionFault::ArithmeticOverflow =>
                HermesFault::ServiceCurveRejected,
            HermesAdmissionFault::BacklogSaturated => HermesFault::ServiceBacklogSaturated,
            HermesAdmissionFault::ArrivalEnvelopeExceeded =>
                HermesFault::ServiceArrivalEnvelopeExceeded,
            HermesAdmissionFault::DeadlineUnsafe => HermesFault::ServiceDeadlineUnsafe,
            HermesAdmissionFault::TimeRegression => HermesFault::ServiceTimeRegression,
            HermesAdmissionFault::StaleReservation | HermesAdmissionFault::CorruptObservation =>
                HermesFault::ServiceReservationCorrupt,
        }),
{
    match fault {
        HermesAdmissionFault::InvalidCurve | HermesAdmissionFault::ArithmeticOverflow =>
            HermesFault::ServiceCurveRejected,
        HermesAdmissionFault::BacklogSaturated => HermesFault::ServiceBacklogSaturated,
        HermesAdmissionFault::ArrivalEnvelopeExceeded =>
            HermesFault::ServiceArrivalEnvelopeExceeded,
        HermesAdmissionFault::DeadlineUnsafe => HermesFault::ServiceDeadlineUnsafe,
        HermesAdmissionFault::TimeRegression => HermesFault::ServiceTimeRegression,
        HermesAdmissionFault::StaleReservation | HermesAdmissionFault::CorruptObservation =>
            HermesFault::ServiceReservationCorrupt,
    }
}

#[verifier::allow_in_spec]
pub fn validate_identity(identity: &HermesPciIdentity) -> Result<(), HermesFault>
    returns
        (if identity.vendor_id != NVIDIA_VENDOR_ID {
            Err(HermesFault::NotNvidia)
        } else if identity.class_code != PCI_CLASS_DISPLAY {
            Err(HermesFault::NotDisplayController)
        } else if identity.slot >= 32 || identity.function >= 8 {
            Err(HermesFault::PersonalityRejected)
        } else {
            Ok::<(), HermesFault>(())
        }),
{
    if identity.vendor_id != NVIDIA_VENDOR_ID {
        return Err(HermesFault::NotNvidia);
    }
    if identity.class_code != PCI_CLASS_DISPLAY {
        return Err(HermesFault::NotDisplayController);
    }
    if identity.slot >= 32 || identity.function >= 8 {
        return Err(HermesFault::PersonalityRejected);
    }
    Ok(())
}

/// Whether a ring has a depth that is a power of two of at least two, and slots of
/// whole words that fit on the wire.
pub open spec fn ring_well_shaped(depth: u16, slot_bytes: u16) -> bool {
    &&& depth >= 2
    &&& power_of_two(depth as nat)
    &&& 0 < slot_bytes <= MAXIMUM_WIRE_BYTES
    &&& slot_bytes % 4 == 0
}

pub fn validate_ring_geometry(depth: u16, slot_bytes: u16) -> (result: Result<(), HermesFault>)
    ensures
        result == (if ring_well_shaped(depth, slot_bytes) {
            Ok::<(), HermesFault>(())
        } else {
            Err(HermesFault::QueueGeometry)
        }),
{
    if depth < 2 || !is_power_of_two(depth as u64) || slot_bytes == 0 || slot_bytes as usize
        > MAXIMUM_WIRE_BYTES || slot_bytes % 4 != 0 {
        return Err(HermesFault::QueueGeometry);
    }
    Ok(())
}

/// The bytes of a ring.
pub open spec fn ring_bytes_of(depth: u16, slot_bytes: u16) -> Result<usize, HermesFault> {
    if ring_well_shaped(depth, slot_bytes) {
        Ok((depth * slot_bytes) as usize)
    } else {
        Err(HermesFault::QueueGeometry)
    }
}

pub fn ring_bytes(depth: u16, slot_bytes: u16) -> (result: Result<usize, HermesFault>)
    ensures
        result == ring_bytes_of(depth, slot_bytes),
        result matches Ok(bytes) ==> bytes == depth * slot_bytes,
{
    match validate_ring_geometry(depth, slot_bytes) {
        Err(error) => Err(error),
        Ok(_) => {
            assert(depth * slot_bytes <= 65_535 * 4096) by (nonlinear_arith)
                requires
                    depth <= 65_535,
                    slot_bytes <= 4096,
            ;
            Ok(depth as usize * slot_bytes as usize)
        },
    }
}

/// Whether a queue may be published so.
pub open spec fn publication_of(
    ring_length: usize,
    expected_depth: u16,
    expected_slot: u16,
    declared_depth: u16,
    declared_slot: u16,
) -> Result<(), HermesFault> {
    if declared_depth == expected_depth && declared_slot == expected_slot && ring_well_shaped(
        expected_depth,
        expected_slot,
    ) && ring_length >= expected_depth * expected_slot {
        Ok(())
    } else {
        Err(HermesFault::QueueGeometry)
    }
}

pub fn validate_queue_publication(
    ring_length: usize,
    expected_depth: u16,
    expected_slot: u16,
    declared_depth: u16,
    declared_slot: u16,
) -> (result: Result<(), HermesFault>)
    ensures
        result == publication_of(
            ring_length,
            expected_depth,
            expected_slot,
            declared_depth,
            declared_slot,
        ),
{
    if declared_depth != expected_depth || declared_slot != expected_slot {
        return Err(HermesFault::QueueGeometry);
    }
    match ring_bytes(expected_depth, expected_slot) {
        Err(error) => Err(error),
        Ok(bytes) => if ring_length < bytes {
            Err(HermesFault::QueueGeometry)
        } else {
            Ok(())
        },
    }
}

/// Whether a profile's own numbers are in range.
pub open spec fn profile_in_range(personality_id: u64, profile: &HermesTransportProfile) -> bool {
    &&& profile.struct_size >= HERMES_PROFILE_BYTES
    &&& profile.profile_version != 0
    &&& profile.personality_id == personality_id
    &&& profile.protocol_family != 0
    &&& profile.wire_major != 0
    &&& profile.wire_minor_minimum <= profile.wire_minor_maximum
    &&& profile.control_bar < MAXIMUM_BARS
    &&& profile.doorbell_bar < MAXIMUM_BARS
    &&& 0 < profile.maximum_boot_steps <= MAXIMUM_BOOT_STEPS
    &&& 0 < profile.maximum_wire_bytes <= MAXIMUM_WIRE_BYTES
}

/// Whether a profile's service curve can be served by its command queue.
pub open spec fn curve_in_range(profile: &HermesTransportProfile) -> bool {
    &&& 0 < profile.minimum_completions_per_window <= profile.maximum_admission_backlog
    &&& 0 < profile.maximum_admissions_per_window <= profile.maximum_admission_backlog
    &&& profile.maximum_admission_backlog < profile.command_depth
    &&& profile.service_window_ticks != 0
}

/// Whether a profile's firmware numbers agree.
pub open spec fn firmware_in_range(profile: &HermesTransportProfile) -> bool {
    &&& profile.firmware_minimum_bytes <= profile.firmware_maximum_bytes
    &&& profile.firmware_maximum_bytes != 0 ==> profile.firmware_alignment != 0
    &&& profile.firmware_alignment != 0 ==> power_of_two(profile.firmware_alignment as nat)
}

/// Whether a register lies in the part of its BAR that the profile asks for.
pub open spec fn register_in_range(profile: &HermesTransportProfile, bar: u8, offset: u32) -> bool {
    profile.required_bar_lengths[bar as int] != 0 && offset + 4
        <= profile.required_bar_lengths[bar as int]
}

pub open spec fn registers_in_range(profile: &HermesTransportProfile) -> bool {
    &&& register_in_range(profile, profile.control_bar, profile.command_producer_offset)
    &&& register_in_range(profile, profile.control_bar, profile.command_consumer_offset)
    &&& register_in_range(profile, profile.control_bar, profile.event_producer_offset)
    &&& register_in_range(profile, profile.control_bar, profile.event_consumer_offset)
    &&& register_in_range(profile, profile.control_bar, profile.status_offset)
    &&& register_in_range(profile, profile.doorbell_bar, profile.command_doorbell_offset)
    &&& register_in_range(profile, profile.doorbell_bar, profile.event_doorbell_offset)
}

pub open spec fn bars_suffice(
    profile: &HermesTransportProfile,
    evidence: &HermesProbeEvidence,
) -> bool {
    forall|bar: int|
        0 <= bar < 6 ==> #[trigger] profile.required_bar_lengths[bar] <= evidence.bar_lengths[bar]
}

/// What is wrong with a profile first.
pub open spec fn profile_fault(
    personality_id: u64,
    profile: &HermesTransportProfile,
    evidence: &HermesProbeEvidence,
) -> Option<HermesFault> {
    if !profile_in_range(personality_id, profile) {
        Some(HermesFault::ProfileRejected)
    } else if !ring_well_shaped(profile.command_depth, profile.command_slot_bytes)
        || !ring_well_shaped(profile.event_depth, profile.event_slot_bytes) {
        Some(HermesFault::QueueGeometry)
    } else if !curve_in_range(profile) {
        Some(HermesFault::ServiceCurveRejected)
    } else if profile.command_slot_bytes > profile.maximum_wire_bytes || profile.event_slot_bytes
        > profile.maximum_wire_bytes {
        Some(HermesFault::QueueGeometry)
    } else if !firmware_in_range(profile) {
        Some(HermesFault::FirmwareAlignment)
    } else if !bars_suffice(profile, evidence) {
        Some(HermesFault::BarUnavailable)
    } else if !registers_in_range(profile) {
        Some(HermesFault::MmioOutOfRange)
    } else {
        None
    }
}

fn register_fits(profile: &HermesTransportProfile, bar: u8, offset: u32) -> (result: bool)
    requires
        bar < 6,
    ensures
        result == register_in_range(profile, bar, offset),
{
    let length: u64 = profile.required_bar_lengths[bar as usize];
    length != 0 && offset as u64 + 4 <= length
}

fn bars_fit(profile: &HermesTransportProfile, evidence: &HermesProbeEvidence) -> (result: bool)
    ensures
        result == bars_suffice(profile, evidence),
{
    let mut bar: usize = 0;
    while bar < MAXIMUM_BARS
        invariant
            bar <= 6,
            forall|i: int|
                0 <= i < bar ==> #[trigger] profile.required_bar_lengths[i]
                    <= evidence.bar_lengths[i],
        decreases 6 - bar,
    {
        if profile.required_bar_lengths[bar] > evidence.bar_lengths[bar] {
            assert(profile.required_bar_lengths[bar as int] > evidence.bar_lengths[bar as int]);
            return false;
        }
        bar = bar + 1;
    }
    true
}

pub fn validate_profile(
    personality_id: u64,
    profile: &HermesTransportProfile,
    evidence: &HermesProbeEvidence,
) -> (result: Result<(), HermesFault>)
    ensures
        result == (match profile_fault(personality_id, profile, evidence) {
            None => Ok::<(), HermesFault>(()),
            Some(fault) => Err(fault),
        }),
{
    if profile.struct_size < HERMES_PROFILE_BYTES || profile.profile_version == 0
        || profile.personality_id != personality_id || profile.protocol_family == 0
        || profile.wire_major == 0 || profile.wire_minor_minimum > profile.wire_minor_maximum
        || profile.control_bar as usize >= MAXIMUM_BARS || profile.doorbell_bar as usize
        >= MAXIMUM_BARS || profile.maximum_boot_steps == 0 || profile.maximum_boot_steps as usize
        > MAXIMUM_BOOT_STEPS || profile.maximum_wire_bytes == 0
        || profile.maximum_wire_bytes as usize > MAXIMUM_WIRE_BYTES {
        return Err(HermesFault::ProfileRejected);
    }
    match validate_ring_geometry(profile.command_depth, profile.command_slot_bytes) {
        Err(error) => {
            return Err(error);
        },
        Ok(_) => {},
    }
    match validate_ring_geometry(profile.event_depth, profile.event_slot_bytes) {
        Err(error) => {
            return Err(error);
        },
        Ok(_) => {},
    }
    if profile.minimum_completions_per_window == 0 || profile.maximum_admissions_per_window == 0
        || profile.maximum_admission_backlog == 0 || profile.maximum_admission_backlog
        >= profile.command_depth || profile.minimum_completions_per_window
        > profile.maximum_admission_backlog || profile.maximum_admissions_per_window
        > profile.maximum_admission_backlog || profile.service_window_ticks == 0 {
        return Err(HermesFault::ServiceCurveRejected);
    }
    if profile.command_slot_bytes as u32 > profile.maximum_wire_bytes
        || profile.event_slot_bytes as u32 > profile.maximum_wire_bytes {
        return Err(HermesFault::QueueGeometry);
    }
    if profile.firmware_minimum_bytes > profile.firmware_maximum_bytes || (
    profile.firmware_maximum_bytes != 0 && profile.firmware_alignment == 0) || (
    profile.firmware_alignment != 0 && !is_power_of_two(profile.firmware_alignment as u64)) {
        return Err(HermesFault::FirmwareAlignment);
    }
    if !bars_fit(profile, evidence) {
        return Err(HermesFault::BarUnavailable);
    }
    if !register_fits(profile, profile.control_bar, profile.command_producer_offset)
        || !register_fits(profile, profile.control_bar, profile.command_consumer_offset)
        || !register_fits(profile, profile.control_bar, profile.event_producer_offset)
        || !register_fits(profile, profile.control_bar, profile.event_consumer_offset)
        || !register_fits(profile, profile.control_bar, profile.status_offset) || !register_fits(
        profile,
        profile.doorbell_bar,
        profile.command_doorbell_offset,
    ) || !register_fits(profile, profile.doorbell_bar, profile.event_doorbell_offset) {
        return Err(HermesFault::MmioOutOfRange);
    }
    Ok(())
}

#[derive(Clone, Copy)]
pub struct FirmwareImage<'a> {
    pub bytes: &'a [u8],
    pub manifest_hash: [u8; 32],
    pub version: u64,
    pub flags: u64,
}

#[derive(Clone, Copy, Debug, PartialEq, Eq)]
pub struct FirmwareSeal {
    pub manifest_hash: [u8; 32],
    pub version: u64,
    pub policy_epoch: u64,
    pub trust_domain: u64,
}

pub open spec fn blank_hash(hash: Seq<u8>) -> bool {
    forall|i: int| 0 <= i < hash.len() ==> #[trigger] hash[i] == 0
}

fn hash_is_blank(hash: &[u8; 32]) -> (result: bool)
    ensures
        result == blank_hash(hash@),
{
    let mut index: usize = 0;
    while index < 32
        invariant
            index <= 32,
            forall|i: int| 0 <= i < index ==> #[trigger] hash@[i] == 0,
        decreases 32 - index,
    {
        if hash[index] != 0 {
            assert(hash@[index as int] != 0);
            return false;
        }
        index = index + 1;
    }
    true
}

pub fn hashes_agree(first: &[u8; 32], second: &[u8; 32]) -> (result: bool)
    ensures
        result == (first@ == second@),
{
    let mut index: usize = 0;
    while index < 32
        invariant
            index <= 32,
            forall|i: int| 0 <= i < index ==> #[trigger] first@[i] == second@[i],
        decreases 32 - index,
    {
        if first[index] != second[index] {
            assert(first@[index as int] != second@[index as int]);
            return false;
        }
        index = index + 1;
    }
    assert(first@ =~= second@);
    true
}

/// What is wrong with an image first.
pub open spec fn firmware_fault(profile: &HermesTransportProfile, image: &FirmwareImage) -> Option<
    HermesFault,
> {
    if profile.firmware_maximum_bytes == 0 {
        Some(HermesFault::FirmwareUnexpected)
    } else if !(profile.firmware_minimum_bytes <= image.bytes@.len()
        <= profile.firmware_maximum_bytes) {
        Some(HermesFault::FirmwareSize)
    } else if !power_of_two(profile.firmware_alignment as nat) {
        Some(HermesFault::FirmwareAlignment)
    } else if blank_hash(image.manifest_hash@) || image.version == 0 {
        Some(HermesFault::FirmwareRejected)
    } else {
        None
    }
}

pub fn validate_firmware(profile: &HermesTransportProfile, image: &FirmwareImage) -> (result:
    Result<(), HermesFault>)
    ensures
        result == (match firmware_fault(profile, image) {
            None => Ok::<(), HermesFault>(()),
            Some(fault) => Err(fault),
        }),
{
    if profile.firmware_maximum_bytes == 0 {
        return Err(HermesFault::FirmwareUnexpected);
    }
    let length: usize = image.bytes.len();
    if length < profile.firmware_minimum_bytes as usize || length
        > profile.firmware_maximum_bytes as usize {
        return Err(HermesFault::FirmwareSize);
    }
    if profile.firmware_alignment == 0 || !is_power_of_two(profile.firmware_alignment as u64) {
        return Err(HermesFault::FirmwareAlignment);
    }
    if hash_is_blank(&image.manifest_hash) || image.version == 0 {
        return Err(HermesFault::FirmwareRejected);
    }
    Ok(())
}

#[verifier::allow_in_spec]
pub fn validate_dma_region<Handle: Copy>(
    region: DmaRegion<Handle>,
    expected_length: usize,
    expected_alignment: usize,
) -> Result<(), HermesFault>
    requires
        expected_alignment > 0,
    returns
        (if region.length < expected_length || region.alignment < expected_alignment
            || region.device_address == 0 || region.device_address % (expected_alignment as u64)
            != 0 || region.device_address + expected_length > u64::MAX {
            Err(HermesFault::DmaAddressOverflow)
        } else {
            Ok::<(), HermesFault>(())
        }),
{
    if region.length < expected_length || region.alignment < expected_alignment
        || region.device_address == 0 || region.device_address % (expected_alignment as u64) != 0
        || region.device_address.checked_add(expected_length as u64).is_none() {
        return Err(HermesFault::DmaAddressOverflow);
    }
    Ok(())
}

#[verifier::allow_in_spec]
pub fn validate_mmio_access<Handle: Copy>(
    window: MmioWindow<Handle>,
    offset: u32,
    width: u64,
) -> Result<(), HermesFault>
    returns
        (if offset & 3 != 0 || offset + width > window.length {
            Err(HermesFault::MmioOutOfRange)
        } else {
            Ok::<(), HermesFault>(())
        }),
{
    if offset & 3 != 0 {
        return Err(HermesFault::MmioOutOfRange);
    }
    match (offset as u64).checked_add(width) {
        None => Err(HermesFault::MmioOutOfRange),
        Some(end) => if end > window.length {
            Err(HermesFault::MmioOutOfRange)
        } else {
            Ok(())
        },
    }
}

#[verifier::allow_in_spec]
pub fn validate_boot_instruction(stage: u32, instruction: &HermesBootInstruction) -> Result<
    (),
    HermesFault,
>
    returns
        (if instruction.instruction_version == 0 || instruction.struct_size
            < HERMES_INSTRUCTION_BYTES || instruction.stage != stage {
            Err(HermesFault::BootInstructionRejected)
        } else {
            Ok::<(), HermesFault>(())
        }),
{
    if instruction.instruction_version == 0 || instruction.struct_size < HERMES_INSTRUCTION_BYTES
        || instruction.stage != stage {
        return Err(HermesFault::BootInstructionRejected);
    }
    Ok(())
}

/// The kernel services that a transport stands on.
pub trait HermesPlatform: Sized {
    type Domain: Copy;

    type Mmio: Copy;

    type Dma: Copy;

    /// What the platform was asked and answered so far.
    open spec fn history(&self) -> Seq<HermesEvent<Self>> {
        arbitrary()
    }

    fn isolate_device(&mut self, identity: HermesPciIdentity) -> (
        reply: Result<Self::Domain, HermesFault>
    )
        ensures
            final(self).history() == old(self).history().push(
                HermesEvent::Isolate { identity, reply },
            ),
    ;

    fn release_domain(&mut self, domain: Self::Domain)
        ensures
            final(self).history() == old(self).history().push(
                HermesEvent::ReleaseDomain { domain },
            ),
    ;

    fn map_bar(&mut self, domain: Self::Domain, bar: u8, minimum_length: u64) -> (reply: Result<
        MmioWindow<Self::Mmio>,
        HermesFault,
    >)
        ensures
            final(self).history() == old(self).history().push(
                HermesEvent::MapBar { domain, bar, minimum_length, reply },
            ),
    ;

    fn unmap_bar(&mut self, window: MmioWindow<Self::Mmio>)
        ensures
            final(self).history() == old(self).history().push(
                HermesEvent::UnmapBar { window },
            ),
    ;

    fn read32(&mut self, window: MmioWindow<Self::Mmio>, offset: u32) -> (reply: Result<
        u32,
        HermesFault,
    >)
        ensures
            final(self).history() == old(self).history().push(
                HermesEvent::Read { window, offset, reply },
            ),
    ;

    fn write32(
        &mut self,
        window: MmioWindow<Self::Mmio>,
        offset: u32,
        value: u32,
    ) -> (reply: Result<
        (),
        HermesFault,
    >)
        ensures
            final(self).history() == old(self).history().push(
                HermesEvent::Write { window, offset, value, reply },
            ),
    ;

    fn io_fence(&mut self) -> (reply: Result<(), HermesFault>)
        ensures
            final(self).history() == old(self).history().push(
                HermesEvent::Fence { reply },
            ),
    ;

    fn allocate_dma(
        &mut self,
        domain: Self::Domain,
        length: usize,
        alignment: usize,
        purpose: DmaPurpose,
    ) -> (reply: Result<DmaRegion<Self::Dma>, HermesFault>)
        ensures
            final(self).history() == old(self).history().push(
                HermesEvent::Allocate { domain, length, alignment, purpose, reply },
            ),
    ;

    fn release_dma(&mut self, region: DmaRegion<Self::Dma>)
        ensures
            final(self).history() == old(self).history().push(
                HermesEvent::ReleaseDma { region },
            ),
    ;

    fn dma_write(
        &mut self,
        region: DmaRegion<Self::Dma>,
        offset: usize,
        bytes: &[u8],
    ) -> (reply: Result<
        (),
        HermesFault,
    >)
        ensures
            final(self).history() == old(self).history().push(
                HermesEvent::DmaWrite { region, offset, bytes: bytes@, reply },
            ),
    ;

    fn dma_read(
        &mut self,
        region: DmaRegion<Self::Dma>,
        offset: usize,
        bytes: &mut [u8],
    ) -> (reply: Result<(), HermesFault>)
        ensures
            final(self).history() == old(self).history().push(
                HermesEvent::DmaRead {
                    region,
                    offset,
                    room: old(bytes)@.len(),
                    bytes: final(bytes)@,
                    reply,
                },
            ),
    ;

    fn dma_publish(
        &mut self,
        region: DmaRegion<Self::Dma>,
        offset: usize,
        length: usize,
    ) -> (reply: Result<(), HermesFault>)
        ensures
            final(self).history() == old(self).history().push(
                HermesEvent::Publish { region, offset, length, reply },
            ),
    ;

    fn dma_acquire(
        &mut self,
        region: DmaRegion<Self::Dma>,
        offset: usize,
        length: usize,
    ) -> (reply: Result<(), HermesFault>)
        ensures
            final(self).history() == old(self).history().push(
                HermesEvent::Acquire { region, offset, length, reply },
            ),
    ;

    fn now_tick(&mut self) -> (tick: u64)
        ensures
            final(self).history() == old(self).history().push(
                HermesEvent::Now { tick },
            ),
    ;

    fn relax(&mut self)
        ensures
            final(self).history() == old(self).history().push(
                HermesEvent::Relax,
            ),
    ;
}

/// One transport personality.
pub trait HermesCodec {
    /// Whether a command, given room, may be written so and answered so.
    open spec fn encodes(
        &self,
        profile: HermesTransportProfile,
        command: CommandShape,
        room: Seq<u8>,
        wire: Seq<u8>,
        reply: Result<usize, HermesFault>,
    ) -> bool {
        arbitrary()
    }

    /// Whether a wire event may be read so.
    open spec fn decodes(
        &self,
        profile: HermesTransportProfile,
        wire: Seq<u8>,
        reply: Result<HermesNormalizedEvent, HermesFault>,
    ) -> bool {
        arbitrary()
    }

    fn personality_id(&self) -> u64;

    fn compatibility_manifest(&self) -> GpuCompatibilityManifest;

    fn match_device(
        &self,
        identity: &HermesPciIdentity,
        evidence: &HermesProbeEvidence,
    ) -> Result<u32, HermesFault>;

    fn describe_transport(
        &self,
        identity: &HermesPciIdentity,
        evidence: &HermesProbeEvidence,
    ) -> Result<HermesTransportProfile, HermesFault>;

    fn boot_instruction(
        &self,
        identity: &HermesPciIdentity,
        evidence: &HermesProbeEvidence,
        stage: u32,
        index: u32,
    ) -> Result<Option<HermesBootInstruction>, HermesFault>;

    fn encode_command(
        &self,
        profile: &HermesTransportProfile,
        command: &HermesNormalizedCommand,
        output: &mut [u8],
    ) -> (reply: Result<usize, HermesFault>)
        ensures
            self.encodes(*profile, command.shape(), old(output)@, final(output)@, reply),
    ;

    fn decode_event(&self, profile: &HermesTransportProfile, input: &[u8]) -> (reply: Result<
        HermesNormalizedEvent,
        HermesFault,
    >)
        ensures
            self.decodes(*profile, input@, reply),
    ;

    fn reset(&self, profile: &HermesTransportProfile, new_epoch: u32) -> Result<(), HermesFault>;
}

/// A personality that is lent.
impl<C: HermesCodec> HermesCodec for &C {
    open spec fn encodes(
        &self,
        profile: HermesTransportProfile,
        command: CommandShape,
        room: Seq<u8>,
        wire: Seq<u8>,
        reply: Result<usize, HermesFault>,
    ) -> bool {
        (**self).encodes(profile, command, room, wire, reply)
    }

    open spec fn decodes(
        &self,
        profile: HermesTransportProfile,
        wire: Seq<u8>,
        reply: Result<HermesNormalizedEvent, HermesFault>,
    ) -> bool {
        (**self).decodes(profile, wire, reply)
    }

    fn personality_id(&self) -> (id: u64)
        ensures
            call_ensures(C::personality_id, (*self,), id),
    {
        (**self).personality_id()
    }

    fn compatibility_manifest(&self) -> (manifest: GpuCompatibilityManifest)
        ensures
            call_ensures(C::compatibility_manifest, (*self,), manifest),
    {
        (**self).compatibility_manifest()
    }

    fn match_device(
        &self,
        identity: &HermesPciIdentity,
        evidence: &HermesProbeEvidence,
    ) -> (reply: Result<u32, HermesFault>)
        ensures
            call_ensures(C::match_device, (*self, identity, evidence), reply),
    {
        (**self).match_device(identity, evidence)
    }

    fn describe_transport(
        &self,
        identity: &HermesPciIdentity,
        evidence: &HermesProbeEvidence,
    ) -> (reply: Result<HermesTransportProfile, HermesFault>)
        ensures
            call_ensures(C::describe_transport, (*self, identity, evidence), reply),
    {
        (**self).describe_transport(identity, evidence)
    }

    fn boot_instruction(
        &self,
        identity: &HermesPciIdentity,
        evidence: &HermesProbeEvidence,
        stage: u32,
        index: u32,
    ) -> (reply: Result<Option<HermesBootInstruction>, HermesFault>)
        ensures
            call_ensures(C::boot_instruction, (*self, identity, evidence, stage, index), reply),
    {
        (**self).boot_instruction(identity, evidence, stage, index)
    }

    fn encode_command(
        &self,
        profile: &HermesTransportProfile,
        command: &HermesNormalizedCommand,
        output: &mut [u8],
    ) -> (reply: Result<usize, HermesFault>) {
        (**self).encode_command(profile, command, output)
    }

    fn decode_event(&self, profile: &HermesTransportProfile, input: &[u8]) -> (reply: Result<
        HermesNormalizedEvent,
        HermesFault,
    >) {
        (**self).decode_event(profile, input)
    }

    fn reset(&self, profile: &HermesTransportProfile, new_epoch: u32) -> (reply: Result<
        (),
        HermesFault,
    >)
        ensures
            call_ensures(C::reset, (*self, profile, new_epoch), reply),
    {
        (**self).reset(profile, new_epoch)
    }
}

pub trait FirmwareAuthority {
    /// Whether an image may be answered so.
    open spec fn vouches(
        &self,
        identity: HermesPciIdentity,
        evidence: HermesProbeEvidence,
        profile: HermesTransportProfile,
        image: ImageShape,
        reply: Result<FirmwareSeal, HermesFault>,
    ) -> bool {
        arbitrary()
    }

    fn authenticate(
        &self,
        identity: &HermesPciIdentity,
        evidence: &HermesProbeEvidence,
        profile: &HermesTransportProfile,
        image: &FirmwareImage,
    ) -> (reply: Result<FirmwareSeal, HermesFault>)
        ensures
            self.vouches(
                *identity,
                *evidence,
                *profile,
                crate::hermes_trace::image_shape(image),
                reply,
            ),
    ;
}

/// An authority that is lent.
impl<F: FirmwareAuthority> FirmwareAuthority for &F {
    open spec fn vouches(
        &self,
        identity: HermesPciIdentity,
        evidence: HermesProbeEvidence,
        profile: HermesTransportProfile,
        image: ImageShape,
        reply: Result<FirmwareSeal, HermesFault>,
    ) -> bool {
        (**self).vouches(identity, evidence, profile, image, reply)
    }

    fn authenticate(
        &self,
        identity: &HermesPciIdentity,
        evidence: &HermesProbeEvidence,
        profile: &HermesTransportProfile,
        image: &FirmwareImage,
    ) -> (reply: Result<FirmwareSeal, HermesFault>) {
        (**self).authenticate(identity, evidence, profile, image)
    }
}

/// One exchange with a service.
pub enum ServiceCall {
    Reserve {
        now_tick: u64,
        deadline_tick: u64,
        backlog: usize,
        reply: Result<HermesAdmissionCertificate, HermesAdmissionFault>,
    },
    Rollback { admission: HermesAdmissionCertificate, reply: Result<(), HermesAdmissionFault> },
    Complete {
        admission: HermesAdmissionCertificate,
        now_tick: u64,
        reply: Result<(), HermesAdmissionFault>,
    },
}

/// Whoever admits commands at the pace that a device completes them.
pub trait HermesService: Sized {
    /// What the service was asked and answered since it was opened.
    open spec fn history(&self) -> Seq<ServiceCall> {
        arbitrary()
    }

    fn open(curve: HermesServiceCurve, now_tick: u64, secret: u64) -> (reply: Result<
        Self,
        HermesAdmissionFault,
    >)
        ensures
            reply matches Ok(service) ==> service.history() == Seq::<ServiceCall>::empty(),
    ;

    fn reserve(&mut self, now_tick: u64, deadline_tick: u64, backlog: usize) -> (reply: Result<
        HermesAdmissionCertificate,
        HermesAdmissionFault,
    >)
        ensures
            final(self).history() == old(self).history().push(
                ServiceCall::Reserve { now_tick, deadline_tick, backlog, reply },
            ),
    ;

    fn rollback(&mut self, admission: HermesAdmissionCertificate) -> (reply: Result<
        (),
        HermesAdmissionFault,
    >)
        ensures
            final(self).history() == old(self).history().push(
                ServiceCall::Rollback { admission, reply },
            ),
    ;

    fn observe_completion(
        &mut self,
        admission: HermesAdmissionCertificate,
        now_tick: u64,
    ) -> (reply: Result<(), HermesAdmissionFault>)
        ensures
            final(self).history() == old(self).history().push(
                ServiceCall::Complete { admission, now_tick, reply },
            ),
    ;

    fn curve(&self) -> HermesServiceCurve;
}

/// A service on the heap.
impl<S: HermesService> HermesService for Box<S> {
    open spec fn history(&self) -> Seq<ServiceCall> {
        (**self).history()
    }

    fn open(curve: HermesServiceCurve, now_tick: u64, secret: u64) -> (reply: Result<
        Self,
        HermesAdmissionFault,
    >) {
        match S::open(curve, now_tick, secret) {
            Err(fault) => Err(fault),
            Ok(service) => Ok(Box::new(service)),
        }
    }

    fn reserve(&mut self, now_tick: u64, deadline_tick: u64, backlog: usize) -> (reply: Result<
        HermesAdmissionCertificate,
        HermesAdmissionFault,
    >) {
        (**self).reserve(now_tick, deadline_tick, backlog)
    }

    fn rollback(&mut self, admission: HermesAdmissionCertificate) -> (reply: Result<
        (),
        HermesAdmissionFault,
    >) {
        (**self).rollback(admission)
    }

    fn observe_completion(
        &mut self,
        admission: HermesAdmissionCertificate,
        now_tick: u64,
    ) -> (reply: Result<(), HermesAdmissionFault>) {
        (**self).observe_completion(admission, now_tick)
    }

    fn curve(&self) -> (curve: HermesServiceCurve)
        ensures
            call_ensures(S::curve, (&**self,), curve),
    {
        (**self).curve()
    }
}

/// What Hermes starts from: the identity, BARs and portable evidence of one
/// fingerprint. It claims no domain, no memory, no firmware and no personality.
#[derive(Clone, Copy, Debug, PartialEq, Eq)]
pub struct HermesDiscovery {
    pub identity: HermesPciIdentity,
    pub probe_evidence: HermesProbeEvidence,
    pub portable_evidence: GpuDeviceEvidence,
}

#[verifier::allow_in_spec]
pub fn fingerprint_identity(fingerprint: &GpuFingerprint) -> HermesPciIdentity
    returns
        (HermesPciIdentity {
            segment: fingerprint.segment,
            bus: fingerprint.bus,
            slot: fingerprint.slot,
            function: fingerprint.function,
            revision: fingerprint.revision,
            vendor_id: fingerprint.vendor_id,
            device_id: fingerprint.device_id,
            subsystem_vendor_id: fingerprint.subsystem_vendor_id,
            subsystem_device_id: fingerprint.subsystem_device_id,
            class_code: fingerprint.class_code,
            subclass: fingerprint.subclass,
            programming_interface: fingerprint.programming_interface,
        }),
{
    HermesPciIdentity {
        segment: fingerprint.segment,
        bus: fingerprint.bus,
        slot: fingerprint.slot,
        function: fingerprint.function,
        revision: fingerprint.revision,
        vendor_id: fingerprint.vendor_id,
        device_id: fingerprint.device_id,
        subsystem_vendor_id: fingerprint.subsystem_vendor_id,
        subsystem_device_id: fingerprint.subsystem_device_id,
        class_code: fingerprint.class_code,
        subclass: fingerprint.subclass,
        programming_interface: fingerprint.programming_interface,
    }
}

impl HermesDiscovery {
    /// The discovery of evidence whose BARs were found usable or not.
    pub open spec fn discovers(
        self,
        identity: HermesPciIdentity,
        portable: GpuDeviceEvidence,
        usable: Seq<bool>,
    ) -> bool {
        &&& self.identity == identity
        &&& self.portable_evidence == portable
        &&& forall|i: int|
            0 <= i < 6 ==> #[trigger] self.probe_evidence.bar_lengths[i] == (if usable[i] {
                portable.bars[i].length
            } else {
                0
            })
        &&& self.probe_evidence.bootrom_revision == portable.bootrom_revision
        &&& self.probe_evidence.architecture_hint == portable.architecture_hint
        &&& self.probe_evidence.observed_features == 0
    }

    /// Takes over evidence that was judged.
    pub fn assemble(
        identity: HermesPciIdentity,
        portable: GpuDeviceEvidence,
        valid: bool,
        usable: &[bool; 6],
    ) -> (result: Result<Self, HermesFault>)
        ensures
            match result {
                Ok(discovery) => valid && discovery.discovers(identity, portable, usable@),
                Err(fault) => !valid && fault == HermesFault::CompatibilityRejected,
            },
    {
        if !valid {
            return Err(HermesFault::CompatibilityRejected);
        }
        let mut probe_evidence = HermesProbeEvidence::empty();
        let mut index: usize = 0;
        while index < 6
            invariant
                index <= 6,
                forall|i: int|
                    0 <= i < index ==> #[trigger] probe_evidence.bar_lengths[i] == (if usable@[i] {
                        portable.bars[i].length
                    } else {
                        0
                    }),
            decreases 6 - index,
        {
            let length: u64 = if usable[index] {
                portable.bars[index].length
            } else {
                0
            };
            probe_evidence.bar_lengths[index] = length;
            index = index + 1;
        }
        probe_evidence.bootrom_revision = portable.bootrom_revision;
        probe_evidence.architecture_hint = portable.architecture_hint;
        probe_evidence.observed_features = 0;
        Ok(HermesDiscovery { identity, probe_evidence, portable_evidence: portable })
    }

    pub fn from_fingerprint<A: GpuCompatibility>(
        fingerprint: &GpuFingerprint,
        judge: &A,
    ) -> (result:
        Result<Self, HermesFault>)
        ensures
            match validate_identity(&fingerprint_identity(fingerprint)) {
                Err(fault) => result == Err::<Self, HermesFault>(fault),
                Ok(_) => exists|valid: bool| #[trigger]
                    call_ensures(
                        A::evidence_valid,
                        (judge, &portable_evidence(fingerprint)),
                        valid,
                    ) && match result {
                        Err(fault) => !valid && fault == HermesFault::CompatibilityRejected,
                        Ok(discovery) => valid && exists|usable: Seq<bool>|
                            usable.len() == 6 && (forall|i: int|
                                0 <= i < 6 ==> call_ensures(
                                    A::usable_mmio,
                                    (judge, &portable_evidence(fingerprint).bars[i]),
                                    #[trigger] usable[i],
                                )) && #[trigger] discovery.discovers(
                                fingerprint_identity(fingerprint),
                                portable_evidence(fingerprint),
                                usable,
                            ),
                    },
            },
    {
        let identity = fingerprint_identity(fingerprint);
        match validate_identity(&identity) {
            Err(fault) => {
                return Err(fault);
            },
            Ok(_) => {},
        }
        let portable = portable_evidence(fingerprint);
        let valid = judge.evidence_valid(&portable);
        if !valid {
            return Err(HermesFault::CompatibilityRejected);
        }
        let mut usable: [bool; 6] = [false;6];
        let mut index: usize = 0;
        while index < 6
            invariant
                index <= 6,
                forall|i: int|
                    0 <= i < index ==> call_ensures(
                        A::usable_mmio,
                        (judge, &portable.bars[i]),
                        #[trigger] usable@[i],
                    ),
            decreases 6 - index,
        {
            let judged = judge.usable_mmio(&portable.bars[index]);
            usable[index] = judged;
            index = index + 1;
        }
        let result = Self::assemble(identity, portable, true, &usable);
        assert(result matches Ok(discovery) ==> discovery.discovers(
            identity,
            portable,
            usable@,
        ));
        result
    }

    #[verifier::allow_in_spec]
    pub fn identity(&self) -> HermesPciIdentity
        returns
            self.identity,
    {
        self.identity
    }

    #[verifier::allow_in_spec]
    pub fn probe_evidence(&self) -> HermesProbeEvidence
        returns
            self.probe_evidence,
    {
        self.probe_evidence
    }

    pub fn portable_evidence(&self) -> (evidence: &GpuDeviceEvidence)
        ensures
            *evidence == self.portable_evidence,
    {
        &self.portable_evidence
    }
}

/// Whether portable evidence is about the device of an identity.
#[verifier::allow_in_spec]
pub fn portable_identity_matches(identity: &HermesPciIdentity, portable: &GpuDeviceEvidence) -> bool
    returns
        (identity.segment == portable.identity.segment && identity.bus == portable.identity.bus
            && identity.slot == portable.identity.slot && identity.function
            == portable.identity.function && identity.revision == portable.identity.revision
            && identity.vendor_id == portable.identity.vendor_id && identity.device_id
            == portable.identity.device_id && identity.subsystem_vendor_id
            == portable.identity.subsystem_vendor_id && identity.subsystem_device_id
            == portable.identity.subsystem_device_id && identity.class_code
            == portable.identity.class_code && identity.subclass == portable.identity.subclass
            && identity.programming_interface == portable.identity.programming_interface),
{
    identity.segment == portable.identity.segment && identity.bus == portable.identity.bus
        && identity.slot == portable.identity.slot && identity.function
        == portable.identity.function && identity.revision == portable.identity.revision
        && identity.vendor_id == portable.identity.vendor_id && identity.device_id
        == portable.identity.device_id && identity.subsystem_vendor_id
        == portable.identity.subsystem_vendor_id && identity.subsystem_device_id
        == portable.identity.subsystem_device_id && identity.class_code
        == portable.identity.class_code && identity.subclass == portable.identity.subclass
        && identity.programming_interface == portable.identity.programming_interface
}

/// A registered personality.
pub struct PersonalityEntry<'a, C> {
    pub id: u64,
    pub codec: &'a C,
}

pub struct ResolvedPersonality<'a, C> {
    pub codec: &'a C,
    pub personality_id: u64,
    pub proof: GpuCompatibilityProof,
    pub score: u32,
}

/// What became of one personality on one device.
#[derive(Clone, Copy, Debug, PartialEq, Eq, Structural)]
pub enum Judgement {
    Refused,
    Failed(HermesFault),
    Matched { proof: GpuCompatibilityProof, score: u32 },
}

/// The leader among judgements: its place, proof and score, and whether another
/// scores the same.
pub open spec fn leading_of(judgements: Seq<Judgement>, minimum_score: u32) -> (
    Option<(int, GpuCompatibilityProof, u32)>,
    bool,
)
    decreases judgements.len(),
{
    if judgements.len() == 0 {
        (None, false)
    } else {
        let (leader, tied) = leading_of(judgements.drop_last(), minimum_score);
        match judgements.last() {
            Judgement::Matched { proof, score } => if score < minimum_score {
                (leader, tied)
            } else {
                let total = total_score(score, proof);
                let candidate = Some((judgements.len() - 1, proof, total));
                match leader {
                    None => (candidate, false),
                    Some((_, _, best)) => if total > best {
                        (candidate, false)
                    } else {
                        (leader, tied || total == best)
                    },
                }
            },
            _ => (leader, tied),
        }
    }
}

/// A codec's score with a proof's score on top.
#[verifier::allow_in_spec]
pub fn total_score(score: u32, proof: GpuCompatibilityProof) -> u32
    returns
        (if score + proof.score_q16 > u32::MAX {
            u32::MAX
        } else {
            (score + proof.score_q16) as u32
        }),
{
    match score.checked_add(proof.score_q16) {
        Some(total) => total,
        None => u32::MAX,
    }
}

/// What judgements lead to: the place, proof and score of the winner.
pub open spec fn verdict_of(judgements: Seq<Judgement>, minimum_score: u32) -> Result<
    (int, GpuCompatibilityProof, u32),
    HermesFault,
> {
    if judgements.len() > 0 && judgements.last() is Failed {
        Err(judgements.last()->Failed_0)
    } else {
        let (leader, tied) = leading_of(judgements, minimum_score);
        if tied {
            Err(HermesFault::AmbiguousPersonality)
        } else {
            match leader {
                None => Err(HermesFault::NoPersonality),
                Some(winner) => Ok(winner),
            }
        }
    }
}

pub struct PersonalityRegistry<'a, C, const N: usize> {
    pub entries: Vec<PersonalityEntry<'a, C>>,
}

impl<'a, C: HermesCodec, const N: usize> PersonalityRegistry<'a, C, N> {
    /// Every personality has a name of its own, and there are no more than fit.
    pub open spec fn wf(&self) -> bool {
        &&& self.entries@.len() <= N
        &&& forall|i: int| 0 <= i < self.entries@.len() ==> (#[trigger] self.entries@[i]).id != 0
        &&& forall|i: int, j: int|
            0 <= i < j < self.entries@.len() ==> (#[trigger] self.entries@[i]).id
                != (#[trigger] self.entries@[j]).id
    }

    pub open spec fn lists(&self, id: u64) -> bool {
        exists|i: int| 0 <= i < self.entries@.len() && (#[trigger] self.entries@[i]).id == id
    }

    pub fn new() -> (registry: Self)
        ensures
            registry.wf(),
            registry.entries@.len() == 0,
    {
        PersonalityRegistry { entries: Vec::new() }
    }

    fn lists_id(&self, id: u64) -> (result: bool)
        ensures
            result == self.lists(id),
    {
        let mut index: usize = 0;
        while index < self.entries.len()
            invariant
                index <= self.entries@.len(),
                forall|i: int| 0 <= i < index ==> (#[trigger] self.entries@[i]).id != id,
            decreases self.entries@.len() - index,
        {
            if self.entries[index].id == id {
                return true;
            }
            index = index + 1;
        }
        false
    }

    /// Lists a personality that named itself and its manifest.
    pub fn enroll(
        &mut self,
        codec: &'a C,
        id: u64,
        manifest: &GpuCompatibilityManifest,
        valid: bool,
    ) -> (result: Result<(), HermesFault>)
        requires
            old(self).wf(),
        ensures
            final(self).wf(),
            if id == 0 || !valid || manifest.driver_id != id || manifest.vendor_id
                != NVIDIA_VENDOR_ID || old(self).lists(id) {
                result == Err::<(), _>(HermesFault::PersonalityRejected) && *final(self) == *old(
                    self,
                )
            } else if old(self).entries@.len() == N {
                result == Err::<(), _>(HermesFault::PersonalityCapacity) && *final(self) == *old(
                    self,
                )
            } else {
                result == Ok::<(), HermesFault>(()) && final(self).entries@ == old(
                    self,
                ).entries@.push(PersonalityEntry { id, codec })
            },
    {
        if id == 0 || !valid || manifest.driver_id != id || manifest.vendor_id
            != NVIDIA_VENDOR_ID {
            return Err(HermesFault::PersonalityRejected);
        }
        if self.lists_id(id) {
            return Err(HermesFault::PersonalityRejected);
        }
        if self.entries.len() == N {
            return Err(HermesFault::PersonalityCapacity);
        }
        self.entries.push(PersonalityEntry { id, codec });
        Ok(())
    }

    pub fn register<A: GpuCompatibility>(&mut self, codec: &'a C, judge: &A) -> (result: Result<
        (),
        HermesFault,
    >)
        requires
            old(self).wf(),
        ensures
            final(self).wf(),
            exists|id: u64, manifest: GpuCompatibilityManifest, valid: bool|
                {
                    &&& #[trigger] call_ensures(C::personality_id, (codec,), id)
                    &&& #[trigger] call_ensures(C::compatibility_manifest, (codec,), manifest)
                    &&& #[trigger] call_ensures(A::manifest_valid, (judge, &manifest), valid)
                    &&& if id == 0 || !valid || manifest.driver_id != id || manifest.vendor_id
                        != NVIDIA_VENDOR_ID || old(self).lists(id) {
                        result == Err::<(), _>(HermesFault::PersonalityRejected) && *final(self)
                            == *old(self)
                    } else if old(self).entries@.len() == N {
                        result == Err::<(), _>(HermesFault::PersonalityCapacity) && *final(self)
                            == *old(self)
                    } else {
                        result == Ok::<(), HermesFault>(()) && final(self).entries@ == old(
                            self,
                        ).entries@.push(PersonalityEntry { id, codec })
                    }
                },
    {
        let id: u64 = codec.personality_id();
        let manifest = codec.compatibility_manifest();
        let valid = judge.manifest_valid(&manifest);
        self.enroll(codec, id, &manifest, valid)
    }

    /// Whether a personality may be judged so.
    pub open spec fn judges<A: GpuCompatibility>(
        codec: &C,
        judge: &A,
        identity: &HermesPciIdentity,
        evidence: &HermesProbeEvidence,
        portable_evidence: &GpuDeviceEvidence,
        proof_secret: u64,
        judgement: Judgement,
    ) -> bool {
        exists|manifest: GpuCompatibilityManifest, proof: GpuCompatibilityProof|
            {
                &&& #[trigger] call_ensures(C::compatibility_manifest, (codec,), manifest)
                &&& #[trigger] call_ensures(
                    A::evaluate,
                    (judge, &manifest, portable_evidence, proof_secret),
                    proof,
                )
                &&& if !proof.accepted {
                    judgement is Refused
                } else {
                    exists|reply: Result<u32, HermesFault>| #[trigger]
                        call_ensures(C::match_device, (codec, identity, evidence), reply)
                            && judgement == (match reply {
                            Err(fault) => Judgement::Failed(fault),
                            Ok(score) => Judgement::Matched { proof, score },
                        })
                }
            }
    }

    fn judge<A: GpuCompatibility>(
        codec: &C,
        judge: &A,
        identity: &HermesPciIdentity,
        evidence: &HermesProbeEvidence,
        portable_evidence: &GpuDeviceEvidence,
        proof_secret: u64,
    ) -> (judgement: Judgement)
        ensures
            Self::judges(
                codec,
                judge,
                identity,
                evidence,
                portable_evidence,
                proof_secret,
                judgement,
            ),
    {
        let manifest = codec.compatibility_manifest();
        let proof = judge.evaluate(&manifest, portable_evidence, proof_secret);
        if !proof.accepted() {
            return Judgement::Refused;
        }
        match codec.match_device(identity, evidence) {
            Err(fault) => Judgement::Failed(fault),
            Ok(score) => Judgement::Matched { proof, score },
        }
    }

    /// The winner among judgements.
    pub fn decide(&self, judgements: &Vec<Judgement>, minimum_score: u32) -> (result: Result<
        ResolvedPersonality<'a, C>,
        HermesFault,
    >)
        requires
            judgements@.len() <= self.entries@.len(),
        ensures
            match verdict_of(judgements@, minimum_score) {
                Err(fault) => result == Err::<ResolvedPersonality<'a, C>, _>(fault),
                Ok((place, proof, score)) => {
                    &&& 0 <= place < self.entries@.len()
                    &&& result matches Ok(resolved)
                    &&& resolved.codec == self.entries@[place].codec
                    &&& resolved.personality_id == self.entries@[place].id
                    &&& resolved.proof == proof
                    &&& resolved.score == score
                },
            },
    {
        if judgements.len() > 0 {
            match judgements[judgements.len() - 1] {
                Judgement::Failed(fault) => {
                    return Err(fault);
                },
                _ => {},
            }
        }
        let mut winner: Option<(usize, GpuCompatibilityProof, u32)> = None;
        let mut tied: bool = false;
        let mut index: usize = 0;
        assert(judgements@.take(0) =~= Seq::<Judgement>::empty());
        while index < judgements.len()
            invariant
                index <= judgements@.len(),
                leading_of(judgements@.take(index as int), minimum_score) == (match winner {
                    None => None::<(int, GpuCompatibilityProof, u32)>,
                    Some((place, proof, score)) => Some((place as int, proof, score)),
                }, tied),
                winner matches Some((place, _, _)) ==> place < index,
            decreases judgements@.len() - index,
        {
            proof {
                assert(judgements@.take(index + 1).drop_last() =~= judgements@.take(index as int));
            }
            match judgements[index] {
                Judgement::Matched { proof, score } => {
                    if score >= minimum_score {
                        let total: u32 = total_score(score, proof);
                        match winner {
                            None => {
                                winner = Some((index, proof, total));
                                tied = false;
                            },
                            Some((_, _, best)) => {
                                if total > best {
                                    winner = Some((index, proof, total));
                                    tied = false;
                                } else if total == best {
                                    tied = true;
                                }
                            },
                        }
                    }
                },
                _ => {},
            }
            index = index + 1;
        }
        assert(judgements@.take(index as int) =~= judgements@);
        if tied {
            return Err(HermesFault::AmbiguousPersonality);
        }
        match winner {
            None => Err(HermesFault::NoPersonality),
            Some((place, proof, score)) => Ok(
                ResolvedPersonality {
                    codec: self.entries[place].codec,
                    personality_id: self.entries[place].id,
                    proof,
                    score,
                },
            ),
        }
    }

    /// Whether personalities may have been judged so: in order, up to the first
    /// that failed.
    pub open spec fn judged<A: GpuCompatibility>(
        &self,
        judge: &A,
        identity: &HermesPciIdentity,
        evidence: &HermesProbeEvidence,
        portable_evidence: &GpuDeviceEvidence,
        proof_secret: u64,
        judgements: Seq<Judgement>,
    ) -> bool {
        &&& judgements.len() <= self.entries@.len()
        &&& forall|i: int|
            0 <= i < judgements.len() ==> Self::judges(
                self.entries@[i].codec,
                judge,
                identity,
                evidence,
                portable_evidence,
                proof_secret,
                #[trigger] judgements[i],
            )
        &&& forall|i: int| 0 <= i < judgements.len() - 1 ==> !(#[trigger] judgements[i] is Failed)
        &&& judgements.len() < self.entries@.len() ==> judgements.len() > 0
            && judgements.last() is Failed
    }

    /// Whether a device may be resolved so.
    pub open spec fn resolves<A: GpuCompatibility>(
        &self,
        judge: &A,
        identity: &HermesPciIdentity,
        evidence: &HermesProbeEvidence,
        portable_evidence: &GpuDeviceEvidence,
        proof_secret: u64,
        minimum_score: u32,
        result: Result<ResolvedPersonality<'a, C>, HermesFault>,
    ) -> bool {
        if proof_secret == 0 || !portable_identity_matches(identity, portable_evidence) {
            result == Err::<ResolvedPersonality<'a, C>, _>(HermesFault::CompatibilityRejected)
        } else {
            exists|judgements: Seq<Judgement>| #[trigger]
                self.judged(
                    judge,
                    identity,
                    evidence,
                    portable_evidence,
                    proof_secret,
                    judgements,
                ) && match verdict_of(judgements, minimum_score) {
                    Err(fault) => result == Err::<ResolvedPersonality<'a, C>, _>(fault),
                    Ok((place, proof, score)) => {
                        &&& 0 <= place < self.entries@.len()
                        &&& result matches Ok(resolved)
                        &&& resolved.codec == self.entries@[place].codec
                        &&& resolved.personality_id == self.entries@[place].id
                        &&& resolved.proof == proof
                        &&& resolved.score == score
                    },
                }
        }
    }

    pub fn resolve<A: GpuCompatibility>(
        &self,
        judge: &A,
        identity: &HermesPciIdentity,
        evidence: &HermesProbeEvidence,
        portable_evidence: &GpuDeviceEvidence,
        proof_secret: u64,
        minimum_score: u32,
    ) -> (result: Result<ResolvedPersonality<'a, C>, HermesFault>)
        ensures
            self.resolves(
                judge,
                identity,
                evidence,
                portable_evidence,
                proof_secret,
                minimum_score,
                result,
            ),
    {
        if proof_secret == 0 || !portable_identity_matches(identity, portable_evidence) {
            return Err(HermesFault::CompatibilityRejected);
        }
        let mut judgements: Vec<Judgement> = Vec::new();
        let mut index: usize = 0;
        let mut failed: bool = false;
        while index < self.entries.len() && !failed
            invariant
                index <= self.entries@.len(),
                judgements@.len() == index,
                forall|i: int|
                    0 <= i < judgements@.len() ==> Self::judges(
                        self.entries@[i].codec,
                        judge,
                        identity,
                        evidence,
                        portable_evidence,
                        proof_secret,
                        #[trigger] judgements@[i],
                    ),
                forall|i: int|
                    0 <= i < judgements@.len() - 1 ==> !(#[trigger] judgements@[i] is Failed),
                failed == (judgements@.len() > 0 && judgements@.last() is Failed),
            decreases self.entries@.len() - index,
        {
            let judgement = Self::judge(
                self.entries[index].codec,
                judge,
                identity,
                evidence,
                portable_evidence,
                proof_secret,
            );
            match judgement {
                Judgement::Failed(_) => {
                    failed = true;
                },
                _ => {},
            }
            judgements.push(judgement);
            index = index + 1;
        }
        assert(self.judged(
            judge,
            identity,
            evidence,
            portable_evidence,
            proof_secret,
            judgements@,
        ));
        self.decide(&judgements, minimum_score)
    }
}

/// A command that waits for its reply.
#[derive(Clone, Copy, Debug, PartialEq, Eq, Structural)]
pub struct PendingRequest {
    pub live: bool,
    pub epoch: u32,
    pub sequence: u32,
    pub opcode: u32,
    pub deadline_tick: u64,
    pub admission: HermesAdmissionCertificate,
}

impl PendingRequest {
    #[verifier::allow_in_spec]
    pub fn empty() -> PendingRequest
        returns
            (PendingRequest {
                live: false,
                epoch: 0,
                sequence: 0,
                opcode: 0,
                deadline_tick: 0,
                admission: HermesAdmissionCertificate::empty(),
            }),
    {
        PendingRequest {
            live: false,
            epoch: 0,
            sequence: 0,
            opcode: 0,
            deadline_tick: 0,
            admission: HermesAdmissionCertificate::empty(),
        }
    }

    /// Whether a request waits for this correlation.
    pub open spec fn answers_to(self, epoch: u32, sequence: u32) -> bool {
        self.live && self.epoch == epoch && self.sequence == sequence
    }
}

/// The first slot from one on that waits for a correlation.
pub open spec fn slot_of(
    entries: Seq<PendingRequest>,
    epoch: u32,
    sequence: u32,
    from: int,
) -> Option<int>
    decreases entries.len() - from,
{
    if from < 0 || from >= entries.len() {
        None
    } else if entries[from].answers_to(epoch, sequence) {
        Some(from)
    } else {
        slot_of(entries, epoch, sequence, from + 1)
    }
}

/// The first free slot from one on.
pub open spec fn free_slot(entries: Seq<PendingRequest>, from: int) -> Option<int>
    decreases entries.len() - from,
{
    if from < 0 || from >= entries.len() {
        None
    } else if !entries[from].live {
        Some(from)
    } else {
        free_slot(entries, from + 1)
    }
}

/// The first slot from one on whose deadline has come.
pub open spec fn due_slot(entries: Seq<PendingRequest>, now_tick: u64, from: int) -> Option<int>
    decreases entries.len() - from,
{
    if from < 0 || from >= entries.len() {
        None
    } else if entries[from].live && tick_reached(now_tick, entries[from].deadline_tick) {
        Some(from)
    } else {
        due_slot(entries, now_tick, from + 1)
    }
}

/// How many slots of a table wait.
pub open spec fn live_in(entries: Seq<PendingRequest>) -> nat
    decreases entries.len(),
{
    if entries.len() == 0 {
        0
    } else {
        live_in(entries.drop_last()) + if entries.last().live {
            1nat
        } else {
            0nat
        }
    }
}

pub open spec fn inserted(entries: Seq<PendingRequest>, request: PendingRequest) -> (
    Result<(), HermesFault>,
    Seq<PendingRequest>,
) {
    if slot_of(entries, request.epoch, request.sequence, 0) is Some {
        (Err(HermesFault::DuplicateRequest), entries)
    } else {
        match free_slot(entries, 0) {
            None => (Err(HermesFault::PendingCapacity), entries),
            Some(slot) => (Ok(()), entries.update(slot, request)),
        }
    }
}

pub open spec fn cancelled(entries: Seq<PendingRequest>, epoch: u32, sequence: u32) -> Seq<
    PendingRequest,
> {
    match slot_of(entries, epoch, sequence, 0) {
        None => entries,
        Some(slot) => entries.update(slot, PendingRequest::empty()),
    }
}

pub open spec fn response_of(entries: Seq<PendingRequest>, epoch: u32, sequence: u32) -> Result<
    PendingRequest,
    HermesFault,
> {
    match slot_of(entries, epoch, sequence, 0) {
        None => Err(HermesFault::UnknownResponse),
        Some(slot) => Ok(entries[slot]),
    }
}

proof fn lemma_slot_in_range(
    entries: Seq<PendingRequest>,
    epoch: u32,
    sequence: u32,
    from: int,
)
    requires
        0 <= from,
    ensures
        slot_of(entries, epoch, sequence, from) matches Some(slot) ==> from <= slot < entries.len()
            && entries[slot].answers_to(epoch, sequence),
        slot_of(entries, epoch, sequence, from) is None ==> forall|i: int|
            from <= i < entries.len() ==> !(#[trigger] entries[i]).answers_to(epoch, sequence),
        forall|i: int|
            #![trigger entries[i]]
            from <= i < entries.len() && entries[i].answers_to(epoch, sequence) ==> (slot_of(
                entries,
                epoch,
                sequence,
                from,
            ) matches Some(slot) && slot <= i),
    decreases entries.len() - from,
{
    if from < entries.len() && !entries[from].answers_to(epoch, sequence) {
        lemma_slot_in_range(entries, epoch, sequence, from + 1);
    }
}

pub proof fn lemma_free_in_range(entries: Seq<PendingRequest>, from: int)
    requires
        0 <= from,
    ensures
        free_slot(entries, from) matches Some(slot) ==> from <= slot < entries.len()
            && !entries[slot].live,
        free_slot(entries, from) is None ==> forall|i: int|
            from <= i < entries.len() ==> (#[trigger] entries[i]).live,
    decreases entries.len() - from,
{
    if from < entries.len() && entries[from].live {
        lemma_free_in_range(entries, from + 1);
    }
}

/// A request that was taken in is found by its correlation, exactly as it was, and
/// its reply leaves every other slot alone.
pub proof fn law_a_reply_finds_its_request(entries: Seq<PendingRequest>, request: PendingRequest)
    requires
        request.live,
        inserted(entries, request).0 is Ok,
    ensures
        ({
            let after = inserted(entries, request).1;
            let slot = free_slot(entries, 0).unwrap();
            &&& response_of(after, request.epoch, request.sequence) == Ok::<_, HermesFault>(request)
            &&& cancelled(after, request.epoch, request.sequence) == entries.update(
                slot,
                PendingRequest::empty(),
            )
        }),
{
    let slot = free_slot(entries, 0).unwrap();
    let after = entries.update(slot, request);
    lemma_free_in_range(entries, 0);
    lemma_slot_in_range(entries, request.epoch, request.sequence, 0);
    lemma_slot_in_range(after, request.epoch, request.sequence, 0);
    assert(after[slot].answers_to(request.epoch, request.sequence));
    let found = slot_of(after, request.epoch, request.sequence, 0).unwrap();
    if found != slot {
        assert(after[found] == entries[found]);
    }
    assert(after.update(slot, PendingRequest::empty()) =~= entries.update(
        slot,
        PendingRequest::empty(),
    ));
}

/// Two requests with one correlation never wait at once.
pub proof fn law_correlations_wait_once(
    entries: Seq<PendingRequest>,
    request: PendingRequest,
    first: int,
    second: int,
)
    requires
        forall|i: int, j: int|
            0 <= i < j < entries.len() && (#[trigger] entries[i]).live
                && (#[trigger] entries[j]).live ==> (entries[i].epoch, entries[i].sequence) != (
            entries[j].epoch,
            entries[j].sequence,
            ),
        0 <= first < second < entries.len(),
        inserted(entries, request).1[first].live,
        inserted(entries, request).1[second].live,
    ensures
        ({
            let after = inserted(entries, request).1;
            (after[first].epoch, after[first].sequence) != (
                after[second].epoch,
                after[second].sequence,
            )
        }),
{
    lemma_slot_in_range(entries, request.epoch, request.sequence, 0);
    lemma_free_in_range(entries, 0);
}

pub struct PendingTable<const N: usize> {
    pub entries: Vec<PendingRequest>,
}

impl<const N: usize> PendingTable<N> {
    pub open spec fn wf(&self) -> bool {
        self.entries@.len() == N
    }

    pub fn new() -> (table: Self)
        ensures
            table.wf(),
            table.entries@ == Seq::new(N as nat, |i: int| PendingRequest::empty()),
    {
        let mut entries: Vec<PendingRequest> = Vec::new();
        while entries.len() < N
            invariant
                entries@.len() <= N,
                forall|i: int|
                    0 <= i < entries@.len() ==> #[trigger] entries@[i] == PendingRequest::empty(),
            decreases N - entries@.len(),
        {
            entries.push(PendingRequest::empty());
        }
        assert(entries@ =~= Seq::new(N as nat, |i: int| PendingRequest::empty()));
        PendingTable { entries }
    }

    fn find(&self, epoch: u32, sequence: u32) -> (result: Option<usize>)
        ensures
            slot_of(self.entries@, epoch, sequence, 0) == (match result {
                None => None::<int>,
                Some(slot) => Some(slot as int),
            }),
            result matches Some(slot) ==> slot < self.entries@.len(),
    {
        let mut index: usize = 0;
        while index < self.entries.len()
            invariant
                index <= self.entries@.len(),
                slot_of(self.entries@, epoch, sequence, 0) == slot_of(
                    self.entries@,
                    epoch,
                    sequence,
                    index as int,
                ),
            decreases self.entries@.len() - index,
        {
            let entry = self.entries[index];
            if entry.live && entry.epoch == epoch && entry.sequence == sequence {
                return Some(index);
            }
            index = index + 1;
        }
        None
    }

    pub fn insert(&mut self, request: PendingRequest) -> (result: Result<(), HermesFault>)
        ensures
            final(self).entries@.len() == old(self).entries@.len(),
            (result, final(self).entries@) == inserted(old(self).entries@, request),
    {
        if self.find(request.epoch, request.sequence).is_some() {
            return Err(HermesFault::DuplicateRequest);
        }
        let mut index: usize = 0;
        while index < self.entries.len()
            invariant
                *self == *old(self),
                index <= self.entries@.len(),
                slot_of(self.entries@, request.epoch, request.sequence, 0) is None,
                free_slot(self.entries@, 0) == free_slot(self.entries@, index as int),
            decreases self.entries@.len() - index,
        {
            if !self.entries[index].live {
                self.entries.set(index, request);
                return Ok(());
            }
            index = index + 1;
        }
        Err(HermesFault::PendingCapacity)
    }

    pub fn cancel(&mut self, epoch: u32, sequence: u32)
        ensures
            final(self).entries@.len() == old(self).entries@.len(),
            final(self).entries@ == cancelled(old(self).entries@, epoch, sequence),
    {
        match self.find(epoch, sequence) {
            None => {},
            Some(slot) => {
                self.entries.set(slot, PendingRequest::empty());
            },
        }
    }

    pub fn take_response(&mut self, event: &HermesNormalizedEvent) -> (result: Result<
        PendingRequest,
        HermesFault,
    >)
        ensures
            final(self).entries@.len() == old(self).entries@.len(),
            result == response_of(
                old(self).entries@,
                event.correlation_epoch,
                event.correlation_sequence,
            ),
            final(self).entries@ == cancelled(
                old(self).entries@,
                event.correlation_epoch,
                event.correlation_sequence,
            ),
    {
        match self.find(event.correlation_epoch, event.correlation_sequence) {
            None => Err(HermesFault::UnknownResponse),
            Some(slot) => {
                let completed = self.entries[slot];
                self.entries.set(slot, PendingRequest::empty());
                Ok(completed)
            },
        }
    }

    pub fn live_count(&self) -> (count: usize)
        ensures
            count == live_in(self.entries@),
    {
        let mut count: usize = 0;
        let mut index: usize = 0;
        assert(self.entries@.take(0) =~= Seq::<PendingRequest>::empty());
        while index < self.entries.len()
            invariant
                index <= self.entries@.len(),
                count == live_in(self.entries@.take(index as int)),
                count <= index,
            decreases self.entries@.len() - index,
        {
            proof {
                assert(self.entries@.take(index + 1).drop_last() =~= self.entries@.take(
                    index as int,
                ));
            }
            if self.entries[index].live {
                count = count + 1;
            }
            index = index + 1;
        }
        assert(self.entries@.take(index as int) =~= self.entries@);
        count
    }

    pub fn expire_one(&mut self, now_tick: u64) -> (result: Option<PendingRequest>)
        ensures
            final(self).entries@.len() == old(self).entries@.len(),
            match due_slot(old(self).entries@, now_tick, 0) {
                None => result is None && *final(self) == *old(self),
                Some(slot) => result == Some(old(self).entries@[slot]) && final(self).entries@
                    == old(self).entries@.update(slot, PendingRequest::empty()),
            },
    {
        let mut index: usize = 0;
        while index < self.entries.len()
            invariant
                *self == *old(self),
                index <= self.entries@.len(),
                due_slot(self.entries@, now_tick, 0) == due_slot(
                    self.entries@,
                    now_tick,
                    index as int,
                ),
            decreases self.entries@.len() - index,
        {
            let entry = self.entries[index];
            if entry.live && tick_reached(now_tick, entry.deadline_tick) {
                self.entries.set(index, PendingRequest::empty());
                return Some(entry);
            }
            index = index + 1;
        }
        None
    }
}

/// Where a runtime starts: a word of the clock and of the device's place, and
/// never zero.
#[verifier::allow_in_spec]
pub fn initial_epoch(identity: &HermesPciIdentity, now_tick: u64) -> u32
    returns
        ({
            let location = ((identity.bus as u32) << 16) | ((identity.slot as u32) << 8)
                | identity.function as u32;
            let epoch = #[verifier::truncate] (now_tick as u32) ^ #[verifier::truncate] (
            (now_tick >> 32) as u32) ^ location ^ ((identity.device_id as u32) << 1)
                ^ 0x4845_524d;
            if epoch == 0 {
                1u32
            } else {
                epoch
            }
        }),
{
    let location: u32 = ((identity.bus as u32) << 16) | ((identity.slot as u32) << 8)
        | identity.function as u32;
    let epoch: u32 = #[verifier::truncate] (now_tick as u32) ^ #[verifier::truncate] ((now_tick
        >> 32) as u32) ^ location ^ ((identity.device_id as u32) << 1) ^ 0x4845_524d;
    if epoch == 0 {
        1
    } else {
        epoch
    }
}

#[verifier::allow_in_spec]
pub fn profile_curve(profile: &HermesTransportProfile) -> HermesServiceCurve
    returns
        (HermesServiceCurve {
            minimum_completions_per_window: profile.minimum_completions_per_window,
            maximum_admissions_per_window: profile.maximum_admissions_per_window,
            window_ticks: profile.service_window_ticks,
            latency_ticks: profile.service_latency_ticks,
            maximum_backlog: profile.maximum_admission_backlog,
        }),
{
    HermesServiceCurve {
        minimum_completions_per_window: profile.minimum_completions_per_window,
        maximum_admissions_per_window: profile.maximum_admissions_per_window,
        window_ticks: profile.service_window_ticks,
        latency_ticks: profile.service_latency_ticks,
        maximum_backlog: profile.maximum_admission_backlog,
    }
}

/// What a runtime holds.
pub struct RuntimeView {
    pub epoch: u32,
    pub next_sequence: u32,
    pub command_producer: u32,
    pub event_consumer: u32,
    pub negotiated_features: u64,
    pub poisoned: bool,
    pub pending: Seq<PendingRequest>,
    pub last_admission: HermesAdmissionCertificate,
}

/// The correlation after this one; a sequence of zero is the end.
pub open spec fn next_correlation(epoch: u32, sequence: u32) -> (u32, u32) {
    if sequence != u32::MAX {
        (epoch, (sequence + 1) as u32)
    } else if epoch != u32::MAX {
        ((epoch + 1) as u32, 1)
    } else {
        (epoch, 0)
    }
}

impl RuntimeView {
    pub open spec fn exhausted(self) -> bool {
        self.epoch == 0 || self.next_sequence == 0
    }

    /// The runtime after a correlation was taken.
    pub open spec fn advanced(self) -> RuntimeView {
        let next = next_correlation(self.epoch, self.next_sequence);
        RuntimeView { epoch: next.0, next_sequence: next.1, ..self }
    }

    pub open spec fn poisoned(self) -> RuntimeView {
        RuntimeView { poisoned: true, ..self }
    }
}

pub struct Runtime<S, const PENDING: usize> {
    pub epoch: u32,
    pub next_sequence: u32,
    pub command_producer: u32,
    pub event_consumer: u32,
    pub negotiated_features: u64,
    pub poisoned: bool,
    pub pending: PendingTable<PENDING>,
    pub service: S,
    pub last_admission: HermesAdmissionCertificate,
}

impl<S: HermesService, const PENDING: usize> View for Runtime<S, PENDING> {
    type V = RuntimeView;

    open spec fn view(&self) -> RuntimeView {
        RuntimeView {
            epoch: self.epoch,
            next_sequence: self.next_sequence,
            command_producer: self.command_producer,
            event_consumer: self.event_consumer,
            negotiated_features: self.negotiated_features,
            poisoned: self.poisoned,
            pending: self.pending.entries@,
            last_admission: self.last_admission,
        }
    }
}

/// A runtime that has sent and received nothing.
pub open spec fn fresh_runtime(
    identity: &HermesPciIdentity,
    now_tick: u64,
    pending: nat,
) -> RuntimeView {
    RuntimeView {
        epoch: initial_epoch(identity, now_tick),
        next_sequence: 1,
        command_producer: 0,
        event_consumer: 0,
        negotiated_features: 0,
        poisoned: false,
        pending: Seq::new(pending, |i: int| PendingRequest::empty()),
        last_admission: HermesAdmissionCertificate::empty(),
    }
}

impl<S: HermesService, const PENDING: usize> Runtime<S, PENDING> {
    /// A runtime around what became of its service.
    pub fn around(
        identity: &HermesPciIdentity,
        now_tick: u64,
        service: Result<S, HermesAdmissionFault>,
    ) -> (result: Result<Self, HermesFault>)
        ensures
            match service {
                Err(_) => result == Err::<Self, _>(HermesFault::ServiceCurveRejected),
                Ok(service) => result matches Ok(runtime) && runtime.service == service
                    && runtime.pending.wf() && runtime@ == fresh_runtime(
                    identity,
                    now_tick,
                    PENDING as nat,
                ),
            },
    {
        match service {
            Err(_) => Err(HermesFault::ServiceCurveRejected),
            Ok(service) => Ok(
                Runtime {
                    epoch: initial_epoch(identity, now_tick),
                    next_sequence: 1,
                    command_producer: 0,
                    event_consumer: 0,
                    negotiated_features: 0,
                    poisoned: false,
                    pending: PendingTable::new(),
                    service,
                    last_admission: HermesAdmissionCertificate::empty(),
                },
            ),
        }
    }

    pub fn new(
        identity: &HermesPciIdentity,
        profile: &HermesTransportProfile,
        now_tick: u64,
        service_secret: u64,
    ) -> (result: Result<Self, HermesFault>)
        ensures
            exists|service: Result<S, HermesAdmissionFault>| #[trigger]
                call_ensures(S::open, (profile_curve(profile), now_tick, service_secret), service)
                    && match service {
                    Err(_) => result == Err::<Self, _>(HermesFault::ServiceCurveRejected),
                    Ok(service) => result matches Ok(runtime) && runtime.service == service
                        && runtime.pending.wf() && runtime@ == fresh_runtime(
                        identity,
                        now_tick,
                        PENDING as nat,
                    ),
                },
    {
        let service = S::open(profile_curve(profile), now_tick, service_secret);
        Self::around(identity, now_tick, service)
    }

    /// Takes one correlation that was never taken before. After the last of them
    /// none is left.
    pub fn allocate_correlation(&mut self) -> (result: Result<(u32, u32), HermesFault>)
        ensures
            final(self).service == old(self).service,
            final(self).pending == old(self).pending,
            if old(self)@.exhausted() {
                result == Err::<(u32, u32), _>(HermesFault::CorrelationSpaceExhausted)
                    && *final(self) == *old(self)
            } else {
                result == Ok::<_, HermesFault>((old(self).epoch, old(self).next_sequence))
                    && final(self)@ == old(self)@.advanced()
            },
    {
        if self.epoch == 0 || self.next_sequence == 0 {
            return Err(HermesFault::CorrelationSpaceExhausted);
        }
        let correlation: (u32, u32) = (self.epoch, self.next_sequence);
        if self.next_sequence == u32::MAX {
            match self.epoch.checked_add(1) {
                Some(next_epoch) => {
                    self.epoch = next_epoch;
                    self.next_sequence = 1;
                },
                None => {
                    self.next_sequence = 0;
                },
            }
        } else {
            self.next_sequence = self.next_sequence + 1;
        }
        Ok(correlation)
    }
}

/// The correlation that is taken after so many others.
pub open spec fn nth_correlation(start: (u32, u32), count: nat) -> (u32, u32)
    decreases count,
{
    if count == 0 {
        start
    } else {
        let last = nth_correlation(start, (count - 1) as nat);
        if last.0 == 0 || last.1 == 0 {
            last
        } else {
            next_correlation(last.0, last.1)
        }
    }
}

pub open spec fn correlation_order(correlation: (u32, u32)) -> int {
    correlation.0 * 0x1_0000_0000 + correlation.1
}

proof fn lemma_correlations_grow(start: (u32, u32), earlier: nat, later: nat)
    requires
        earlier <= later,
        nth_correlation(start, later).0 != 0,
        nth_correlation(start, later).1 != 0,
    ensures
        nth_correlation(start, earlier).0 != 0,
        nth_correlation(start, earlier).1 != 0,
        correlation_order(nth_correlation(start, later)) >= correlation_order(
            nth_correlation(start, earlier),
        ) + (later - earlier),
    decreases later - earlier,
{
    if earlier < later {
        lemma_correlations_grow(start, earlier, (later - 1) as nat);
    }
}

/// No correlation is ever taken twice: of two that were taken, the later is the
/// greater.
pub proof fn law_a_correlation_is_taken_once(start: (u32, u32), earlier: nat, later: nat)
    requires
        earlier < later,
        nth_correlation(start, earlier).0 != 0,
        nth_correlation(start, earlier).1 != 0,
        nth_correlation(start, later).0 != 0,
        nth_correlation(start, later).1 != 0,
    ensures
        nth_correlation(start, earlier) != nth_correlation(start, later),
        correlation_order(nth_correlation(start, earlier)) < correlation_order(
            nth_correlation(start, later),
        ),
{
    lemma_correlations_grow(start, earlier, later);
}

/// Once there is no correlation left, there never is one again.
pub proof fn law_the_end_of_correlations_is_final(start: (u32, u32), earlier: nat, later: nat)
    requires
        earlier <= later,
        nth_correlation(start, earlier).1 == 0,
    ensures
        nth_correlation(start, later).1 == 0,
    decreases later - earlier,
{
    if earlier < later {
        law_the_end_of_correlations_is_final(start, earlier, (later - 1) as nat);
    }
}

/// Within half the clock's range, a deadline is reached exactly when the clock has
/// gone to it or past it, wherever the clock wraps.
pub proof fn law_deadlines_survive_the_wrap(deadline: u64, elapsed: int)
    requires
        -0x8000_0000_0000_0000 <= elapsed < 0x8000_0000_0000_0000,
    ensures
        tick_reached(((deadline + elapsed) % 0x1_0000_0000_0000_0000) as u64, deadline) <==> elapsed
            >= 0,
{
}

} // verus!
