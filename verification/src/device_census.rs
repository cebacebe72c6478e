//! Measured, class-neutral PCI discovery and binding authority.
//!
//! The census records what the bus proves, not what a device might be used for.
//! A multimedia-video function is not automatically a camera, an other-network
//! function is not automatically Wi-Fi, and an xHCI controller is not a HID
//! device. Drivers must add transport-specific evidence before publishing those
//! higher-level identities.

use crate::pci::{PciDevice, PciInventory};
use crate::seal::{flag, Sealer};
use vstd::prelude::*;

verus! {

pub const MAXIMUM_BOOT_DEVICES: usize = 256;

pub const MAXIMUM_DISPLAY_CLAIMS: usize = 64;

pub const EVIDENCE_IDENTITY: u32 = 1 << 0;

pub const EVIDENCE_CLASS_TUPLE: u32 = 1 << 1;

pub const EVIDENCE_LEGACY_IRQ: u32 = 1 << 2;

pub const EVIDENCE_DMAR_COVERAGE: u32 = 1 << 3;

pub const EVIDENCE_PCI_CONFIGURATION: u32 = 1 << 4;

pub const AUTHORITY_DELEGATE: u64 = 1 << 0;

pub const AUTHORITY_MMIO: u64 = 1 << 1;

pub const AUTHORITY_DMA: u64 = 1 << 2;

pub const AUTHORITY_IRQ: u64 = 1 << 3;

pub const AUTHORITY_CLOCK: u64 = 1 << 4;

pub const AUTHORITY_PUBLISH: u64 = 1 << 5;

pub const AUTHORITY_PCI_CONFIG: u64 = 1 << 6;

pub const PCI_CLASS_NETWORK: u8 = 0x02;

pub const PCI_CLASS_DISPLAY: u8 = 0x03;

pub const PCI_CLASS_MULTIMEDIA: u8 = 0x04;

pub const PCI_CLASS_INPUT: u8 = 0x09;

pub const PCI_CLASS_SERIAL_BUS: u8 = 0x0c;

pub const PCI_CLASS_WIRELESS: u8 = 0x0d;

pub const PCI_SUBCLASS_MULTIMEDIA_VIDEO: u8 = 0x00;

pub const PCI_SUBCLASS_MULTIMEDIA_AUDIO: u8 = 0x01;

pub const PCI_SUBCLASS_HD_AUDIO: u8 = 0x03;

pub const PCI_SUBCLASS_USB: u8 = 0x03;

#[derive(Clone, Copy, Debug, PartialEq, Eq, Structural)]
pub enum DeviceFamily {
    DisplayAdapter,
    AudioController,
    MultimediaVideoController,
    NetworkController,
    WirelessController,
    UsbHostController,
    InputController,
    Other,
}

impl DeviceFamily {
    #[verifier::allow_in_spec]
    pub fn code(self) -> u8
        returns
            (match self {
                DeviceFamily::DisplayAdapter => 1u8,
                DeviceFamily::AudioController => 2u8,
                DeviceFamily::MultimediaVideoController => 3u8,
                DeviceFamily::NetworkController => 4u8,
                DeviceFamily::WirelessController => 5u8,
                DeviceFamily::UsbHostController => 6u8,
                DeviceFamily::InputController => 7u8,
                DeviceFamily::Other => 8u8,
            }),
    {
        match self {
            DeviceFamily::DisplayAdapter => 1,
            DeviceFamily::AudioController => 2,
            DeviceFamily::MultimediaVideoController => 3,
            DeviceFamily::NetworkController => 4,
            DeviceFamily::WirelessController => 5,
            DeviceFamily::UsbHostController => 6,
            DeviceFamily::InputController => 7,
            DeviceFamily::Other => 8,
        }
    }

    /// The most authority that a driver of this family may hold.
    #[verifier::allow_in_spec]
    pub fn authority_ceiling(self) -> u64
        returns
            (match self {
                DeviceFamily::InputController => AUTHORITY_DELEGATE | AUTHORITY_MMIO | AUTHORITY_IRQ
                    | AUTHORITY_CLOCK | AUTHORITY_PCI_CONFIG,
                DeviceFamily::Other => AUTHORITY_DELEGATE,
                _ => AUTHORITY_DELEGATE | AUTHORITY_MMIO | AUTHORITY_DMA | AUTHORITY_IRQ
                    | AUTHORITY_CLOCK | AUTHORITY_PUBLISH | AUTHORITY_PCI_CONFIG,
            }),
    {
        match self {
            DeviceFamily::InputController => {
                AUTHORITY_DELEGATE | AUTHORITY_MMIO | AUTHORITY_IRQ | AUTHORITY_CLOCK
                    | AUTHORITY_PCI_CONFIG
            },
            DeviceFamily::Other => AUTHORITY_DELEGATE,
            _ => {
                AUTHORITY_DELEGATE | AUTHORITY_MMIO | AUTHORITY_DMA | AUTHORITY_IRQ
                    | AUTHORITY_CLOCK | AUTHORITY_PUBLISH | AUTHORITY_PCI_CONFIG
            },
        }
    }
}

#[derive(Clone, Copy, Debug, PartialEq, Eq, Structural)]
pub struct DeviceAddress {
    pub segment: u16,
    pub bus: u8,
    pub slot: u8,
    pub function: u8,
}

#[derive(Clone, Copy, Debug, PartialEq, Eq, Structural)]
pub enum DeviceState {
    Detected,
    Claimed,
    Operational,
    Quarantined,
    Deferred,
}

impl DeviceState {
    #[verifier::allow_in_spec]
    pub fn code(self) -> u8
        returns
            (match self {
                DeviceState::Detected => 1u8,
                DeviceState::Claimed => 2u8,
                DeviceState::Operational => 3u8,
                DeviceState::Quarantined => 4u8,
                DeviceState::Deferred => 5u8,
            }),
    {
        match self {
            DeviceState::Detected => 1,
            DeviceState::Claimed => 2,
            DeviceState::Operational => 3,
            DeviceState::Quarantined => 4,
            DeviceState::Deferred => 5,
        }
    }
}

#[derive(Clone, Copy, Debug, PartialEq, Eq)]
pub struct PciFunctionEvidence {
    pub address: DeviceAddress,
    pub vendor_id: u16,
    pub device_id: u16,
    pub class_code: u8,
    pub subclass: u8,
    pub programming_interface: u8,
    pub revision: u8,
    pub header_type: u8,
    pub interrupt_line: u8,
    pub interrupt_pin: u8,
    pub command: u16,
    pub bar_count: u8,
    pub raw_bars: [u32; 6],
    pub family: DeviceFamily,
    pub evidence_mask: u32,
    pub dmar_covered: bool,
    pub evidence_root: u64,
}

/// How many base address registers a header layout has.
#[verifier::allow_in_spec]
pub fn bar_slots(header_type: u8) -> u8
    returns
        (match header_type & 0x7f {
            0 => 6u8,
            1 => 2u8,
            _ => 0u8,
        }),
{
    match header_type & 0x7f {
        0 => 6,
        1 => 2,
        _ => 0,
    }
}

impl PciFunctionEvidence {
    #[verifier::allow_in_spec]
    pub fn valid(self) -> bool
        returns
            ({
                &&& self.vendor_id != 0
                &&& self.vendor_id != 0xffff
                &&& self.address.slot < 32
                &&& self.address.function < 8
                &&& self.evidence_mask & (EVIDENCE_IDENTITY | EVIDENCE_CLASS_TUPLE) == (
                EVIDENCE_IDENTITY | EVIDENCE_CLASS_TUPLE)
                &&& self.evidence_mask & EVIDENCE_PCI_CONFIGURATION != 0
                &&& self.bar_count == bar_slots(self.header_type)
                &&& self.dmar_covered == (self.evidence_mask & EVIDENCE_DMAR_COVERAGE != 0)
                &&& self.evidence_root != 0
            }),
    {
        self.vendor_id != 0 && self.vendor_id != 0xffff && self.address.slot < 32
            && self.address.function < 8 && self.evidence_mask & (EVIDENCE_IDENTITY
            | EVIDENCE_CLASS_TUPLE) == (EVIDENCE_IDENTITY | EVIDENCE_CLASS_TUPLE)
            && self.evidence_mask & EVIDENCE_PCI_CONFIGURATION != 0 && self.bar_count == bar_slots(
            self.header_type,
        ) && self.dmar_covered == (self.evidence_mask & EVIDENCE_DMAR_COVERAGE != 0)
            && self.evidence_root != 0
    }

    /// The words that the evidence root seals, in order.
    pub open spec fn words(self) -> Seq<u64> {
        seq![
            self.address.segment as u64,
            self.address.bus as u64,
            self.address.slot as u64,
            self.address.function as u64,
            self.vendor_id as u64,
            self.device_id as u64,
            self.class_code as u64,
            self.subclass as u64,
            self.programming_interface as u64,
            self.revision as u64,
            self.header_type as u64,
            self.interrupt_line as u64,
            self.interrupt_pin as u64,
            self.command as u64,
            self.bar_count as u64,
            self.raw_bars[0] as u64,
            self.raw_bars[1] as u64,
            self.raw_bars[2] as u64,
            self.raw_bars[3] as u64,
            self.raw_bars[4] as u64,
            self.raw_bars[5] as u64,
            self.family.code() as u64,
            self.evidence_mask as u64,
            crate::seal::flag_word(self.dmar_covered),
        ]
    }
}

#[derive(Clone, Copy, Debug, PartialEq, Eq)]
pub struct DeviceCensusSummary {
    pub total: usize,
    pub display: usize,
    pub audio: usize,
    pub multimedia_video: usize,
    pub network: usize,
    pub wireless: usize,
    pub usb_hosts: usize,
    pub input: usize,
    pub other: usize,
    pub detected: usize,
    pub claimed: usize,
    pub operational: usize,
    pub quarantined: usize,
    pub deferred: usize,
    pub root: u64,
}

#[derive(Clone, Copy, Debug, PartialEq, Eq, Structural)]
pub enum CensusError {
    InvalidSecret,
    InventoryOverflow,
    Capacity,
    DuplicateAddress,
    InvalidEvidence,
    InvalidManifest,
    NoMatch,
    EvidenceMissing(u32),
    AuthorityUnavailable(u64),
    AuthorityExceedsClass(u64),
    InvalidSlot,
    StaleClaim,
    AuthorizationMismatch,
    InvalidTerminalRoot,
    AlreadyPublished,
}

#[derive(Clone, Copy, Debug, PartialEq, Eq)]
pub struct DriverBindingManifest {
    pub driver_id: u64,
    pub family: DeviceFamily,
    pub vendor_id: u16,
    pub device_id_mask: u16,
    pub device_id_value: u16,
    pub class_code_mask: u8,
    pub class_code_value: u8,
    pub subclass_mask: u8,
    pub subclass_value: u8,
    pub programming_interface_mask: u8,
    pub programming_interface_value: u8,
    pub revision_minimum: u8,
    pub revision_maximum: u8,
    pub required_evidence: u32,
    pub requested_authority: u64,
}

pub const KNOWN_EVIDENCE: u32 = EVIDENCE_IDENTITY | EVIDENCE_CLASS_TUPLE | EVIDENCE_LEGACY_IRQ
    | EVIDENCE_DMAR_COVERAGE | EVIDENCE_PCI_CONFIGURATION;

impl DriverBindingManifest {
    #[verifier::allow_in_spec]
    pub fn valid(self) -> bool
        returns
            ({
                &&& self.driver_id != 0
                &&& self.revision_minimum <= self.revision_maximum
                &&& self.device_id_value & !self.device_id_mask == 0
                &&& self.class_code_value & !self.class_code_mask == 0
                &&& self.subclass_value & !self.subclass_mask == 0
                &&& self.programming_interface_value & !self.programming_interface_mask == 0
                &&& self.required_evidence & !KNOWN_EVIDENCE == 0
                &&& self.requested_authority != 0
                &&& self.requested_authority & !self.family.authority_ceiling() == 0
            }),
    {
        self.driver_id != 0 && self.revision_minimum <= self.revision_maximum
            && self.device_id_value & !self.device_id_mask == 0 && self.class_code_value
            & !self.class_code_mask == 0 && self.subclass_value & !self.subclass_mask == 0
            && self.programming_interface_value & !self.programming_interface_mask == 0
            && self.required_evidence & !KNOWN_EVIDENCE == 0 && self.requested_authority != 0
            && self.requested_authority & !self.family.authority_ceiling() == 0
    }

    #[verifier::allow_in_spec]
    pub fn matches(self, evidence: PciFunctionEvidence) -> bool
        returns
            ({
                &&& self.valid()
                &&& self.family == evidence.family
                &&& (self.vendor_id == 0xffff || self.vendor_id == evidence.vendor_id)
                &&& evidence.device_id & self.device_id_mask == self.device_id_value
                    & self.device_id_mask
                &&& evidence.class_code & self.class_code_mask == self.class_code_value
                &&& evidence.subclass & self.subclass_mask == self.subclass_value
                &&& evidence.programming_interface & self.programming_interface_mask
                    == self.programming_interface_value
                &&& evidence.revision >= self.revision_minimum
                &&& evidence.revision <= self.revision_maximum
            }),
    {
        self.valid() && self.family == evidence.family && (self.vendor_id == 0xffff
            || self.vendor_id == evidence.vendor_id) && evidence.device_id & self.device_id_mask
            == self.device_id_value & self.device_id_mask && evidence.class_code
            & self.class_code_mask == self.class_code_value && evidence.subclass
            & self.subclass_mask == self.subclass_value && evidence.programming_interface
            & self.programming_interface_mask == self.programming_interface_value
            && evidence.revision >= self.revision_minimum && evidence.revision
            <= self.revision_maximum
    }
}

/// A driver's sealed hold on one census slot.
#[derive(Clone, Copy, Debug, PartialEq, Eq)]
pub struct BindingClaim {
    slot: u16,
    generation: u32,
    address: DeviceAddress,
    evidence_root: u64,
    driver_id: u64,
    authority: u64,
    claim_root: u64,
}

impl BindingClaim {
    /// What the root of a claim is mixed from, in this order.
    pub open spec fn words(self) -> Seq<u64> {
        seq![
            self.slot_of() as u64,
            self.generation_of() as u64,
            self.address_of().segment as u64,
            self.address_of().bus as u64,
            self.address_of().slot as u64,
            self.address_of().function as u64,
            self.evidence_root_of(),
            self.driver_of(),
            self.authority_of(),
        ]
    }

    pub closed spec fn slot_of(self) -> u16 {
        self.slot
    }

    pub closed spec fn generation_of(self) -> u32 {
        self.generation
    }

    pub closed spec fn address_of(self) -> DeviceAddress {
        self.address
    }

    pub closed spec fn evidence_root_of(self) -> u64 {
        self.evidence_root
    }

    pub closed spec fn driver_of(self) -> u64 {
        self.driver_id
    }

    pub closed spec fn authority_of(self) -> u64 {
        self.authority
    }

    pub closed spec fn root_of(self) -> u64 {
        self.claim_root
    }

    pub fn address(self) -> (address: DeviceAddress)
        ensures
            address == self.address_of(),
    {
        self.address
    }

    pub fn evidence_root(self) -> (root: u64)
        ensures
            root == self.evidence_root_of(),
    {
        self.evidence_root
    }
}

/// Ephemeral proof that a claim was checked against its still-live census slot.
///
/// The fields are intentionally private and the value is not cloneable: driver
/// code can receive one authorization for one operation, but cannot construct
/// or duplicate authority from the detached fields in a `BindingClaim`.
#[derive(Debug, PartialEq, Eq)]
pub struct BindingAuthorization {
    address: DeviceAddress,
    evidence_root: u64,
    generation: u32,
    driver_id: u64,
    authority: u64,
    authorization_root: u64,
}

impl BindingAuthorization {
    /// What the root of an authorization is mixed from, in this order.
    pub open spec fn words(self) -> Seq<u64> {
        seq![
            self.address_of().segment as u64,
            self.address_of().bus as u64,
            self.address_of().slot as u64,
            self.address_of().function as u64,
            self.evidence_root_of(),
            self.generation_of() as u64,
            self.driver_of(),
            self.authority_of(),
        ]
    }

    pub closed spec fn address_of(self) -> DeviceAddress {
        self.address
    }

    pub closed spec fn evidence_root_of(self) -> u64 {
        self.evidence_root
    }

    pub closed spec fn generation_of(self) -> u32 {
        self.generation
    }

    pub closed spec fn driver_of(self) -> u64 {
        self.driver_id
    }

    pub closed spec fn authority_of(self) -> u64 {
        self.authority
    }

    pub closed spec fn root_of(self) -> u64 {
        self.authorization_root
    }

    pub fn address(&self) -> (address: DeviceAddress)
        ensures
            address == self.address_of(),
    {
        self.address
    }

    pub fn evidence_root(&self) -> (root: u64)
        ensures
            root == self.evidence_root_of(),
    {
        self.evidence_root
    }

    pub fn generation(&self) -> (generation: u32)
        ensures
            generation == self.generation_of(),
    {
        self.generation
    }

    pub fn authorization_root(&self) -> (root: u64)
        ensures
            root == self.root_of(),
    {
        self.authorization_root
    }
}

/// At most `N` claims, in the order of their census slots.
pub struct BindingClaimSet<const N: usize> {
    claims: Vec<BindingClaim>,
}

impl<const N: usize> BindingClaimSet<N> {
    pub closed spec fn view(&self) -> Seq<BindingClaim> {
        self.claims@
    }

    pub fn claims(&self) -> (claims: &[BindingClaim])
        ensures
            claims@ == self.view(),
    {
        self.claims.as_slice()
    }
}

#[derive(Clone, Copy, Debug, PartialEq, Eq)]
pub struct BindingLease {
    pub address: DeviceAddress,
    pub generation: u32,
    pub driver_id: u64,
    pub authority: u64,
    pub evidence_root: u64,
    pub operational_root: u64,
    pub lease_root: u64,
}

impl BindingLease {
    pub open spec fn words(self) -> Seq<u64> {
        seq![
            self.evidence_root,
            self.driver_id,
            self.generation as u64,
            self.authority,
            self.operational_root,
        ]
    }
}

/// One census slot: the evidence and what became of the function.
#[derive(Clone, Copy, Debug, PartialEq, Eq)]
pub struct RetainedDeviceRecord {
    pub evidence: PciFunctionEvidence,
    pub state: DeviceState,
    pub generation: u32,
    pub driver_id: u64,
    pub authority: u64,
    pub terminal_root: u64,
}

/// The endpoints that the remapping tables place under translation.
pub struct DmarInfo {
    pub endpoints: Vec<DeviceAddress>,
}

impl DmarInfo {
    pub open spec fn covers(self, endpoint: DeviceAddress) -> bool {
        self.endpoints@.contains(endpoint)
    }

    pub fn covers_endpoint(&self, endpoint: DeviceAddress) -> (covered: bool)
        ensures
            covered == self.covers(endpoint),
    {
        let mut index: usize = 0;
        while index < self.endpoints.len()
            invariant
                index <= self.endpoints@.len(),
                forall|i: int| 0 <= i < index ==> self.endpoints@[i] != endpoint,
            decreases self.endpoints@.len() - index,
        {
            if self.endpoints[index] == endpoint {
                return true;
            }
            index += 1;
        }
        false
    }
}

pub open spec fn dmar_covers(dmar: Option<&DmarInfo>, endpoint: DeviceAddress) -> bool {
    dmar is Some && dmar->0.covers(endpoint)
}

/// The census address of a scanned function; scans cover segment zero.
#[verifier::allow_in_spec]
pub fn device_address(device: PciDevice) -> DeviceAddress
    returns
        (DeviceAddress {
            segment: 0,
            bus: device.address.bus,
            slot: device.address.slot,
            function: device.address.function,
        }),
{
    DeviceAddress {
        segment: 0,
        bus: device.address.bus,
        slot: device.address.slot,
        function: device.address.function,
    }
}

/// The family that the class tuple alone proves.
pub open spec fn family_of(class_code: u8, subclass: u8) -> DeviceFamily {
    if class_code == PCI_CLASS_DISPLAY {
        DeviceFamily::DisplayAdapter
    } else if class_code == PCI_CLASS_MULTIMEDIA && (subclass == PCI_SUBCLASS_MULTIMEDIA_AUDIO
        || subclass == PCI_SUBCLASS_HD_AUDIO) {
        DeviceFamily::AudioController
    } else if class_code == PCI_CLASS_MULTIMEDIA && subclass == PCI_SUBCLASS_MULTIMEDIA_VIDEO {
        DeviceFamily::MultimediaVideoController
    } else if class_code == PCI_CLASS_NETWORK {
        DeviceFamily::NetworkController
    } else if class_code == PCI_CLASS_WIRELESS {
        DeviceFamily::WirelessController
    } else if class_code == PCI_CLASS_SERIAL_BUS && subclass == PCI_SUBCLASS_USB {
        DeviceFamily::UsbHostController
    } else if class_code == PCI_CLASS_INPUT {
        DeviceFamily::InputController
    } else {
        DeviceFamily::Other
    }
}

pub fn classify(device: PciDevice) -> (family: DeviceFamily)
    ensures
        family == family_of(device.class_code, device.subclass),
{
    match device.class_code {
        PCI_CLASS_DISPLAY => DeviceFamily::DisplayAdapter,
        PCI_CLASS_MULTIMEDIA => match device.subclass {
            PCI_SUBCLASS_MULTIMEDIA_AUDIO | PCI_SUBCLASS_HD_AUDIO => DeviceFamily::AudioController,
            PCI_SUBCLASS_MULTIMEDIA_VIDEO => DeviceFamily::MultimediaVideoController,
            _ => DeviceFamily::Other,
        },
        PCI_CLASS_NETWORK => DeviceFamily::NetworkController,
        PCI_CLASS_WIRELESS => DeviceFamily::WirelessController,
        PCI_CLASS_SERIAL_BUS => if device.subclass == PCI_SUBCLASS_USB {
            DeviceFamily::UsbHostController
        } else {
            DeviceFamily::Other
        },
        PCI_CLASS_INPUT => DeviceFamily::InputController,
        _ => DeviceFamily::Other,
    }
}

/// The evidence bits that one scanned function earns.
#[verifier::allow_in_spec]
pub fn observed_evidence(interrupt_pin: u8, dmar_covered: bool) -> u32
    returns
        ((EVIDENCE_IDENTITY | EVIDENCE_CLASS_TUPLE | EVIDENCE_PCI_CONFIGURATION) | (
        if interrupt_pin != 0 {
            EVIDENCE_LEGACY_IRQ
        } else {
            0u32
        }) | (if dmar_covered {
            EVIDENCE_DMAR_COVERAGE
        } else {
            0u32
        })),
{
    let irq: u32 = if interrupt_pin != 0 {
        EVIDENCE_LEGACY_IRQ
    } else {
        0
    };
    let coverage: u32 = if dmar_covered {
        EVIDENCE_DMAR_COVERAGE
    } else {
        0
    };
    (EVIDENCE_IDENTITY | EVIDENCE_CLASS_TUPLE | EVIDENCE_PCI_CONFIGURATION) | irq | coverage
}

/// The evidence of a scanned function, not sealed yet.
pub open spec fn unsealed_evidence(device: PciDevice, dmar_covered: bool) -> PciFunctionEvidence {
    PciFunctionEvidence {
        address: device_address(device),
        vendor_id: device.vendor_id,
        device_id: device.device_id,
        class_code: device.class_code,
        subclass: device.subclass,
        programming_interface: device.programming_interface,
        revision: device.revision,
        header_type: device.header_type,
        interrupt_line: device.interrupt_line,
        interrupt_pin: device.interrupt_pin,
        command: device.command,
        bar_count: device.bar_count,
        raw_bars: device.raw_bars,
        family: family_of(device.class_code, device.subclass),
        evidence_mask: observed_evidence(device.interrupt_pin, dmar_covered),
        dmar_covered,
        evidence_root: 0,
    }
}

/// The sealed evidence of a scanned function.
pub open spec fn evidence_of(
    secret: u64,
    device: PciDevice,
    dmar_covered: bool,
) -> PciFunctionEvidence {
    let unsealed = unsealed_evidence(device, dmar_covered);
    PciFunctionEvidence {
        evidence_root: crate::seal::seal_of(secret, unsealed.words()),
        ..unsealed
    }
}

/// A slot as a scan leaves it.
pub open spec fn detected(evidence: PciFunctionEvidence) -> RetainedDeviceRecord {
    RetainedDeviceRecord {
        evidence,
        state: DeviceState::Detected,
        generation: 1,
        driver_id: 0,
        authority: 0,
        terminal_root: 0,
    }
}

pub open spec fn addresses_are_unique(slots: Seq<RetainedDeviceRecord>) -> bool {
    forall|i: int, j: int|
        0 <= i < j < slots.len() ==> #[trigger] slots[i].evidence.address
            != #[trigger] slots[j].evidence.address
}

pub open spec fn holds_address(slots: Seq<RetainedDeviceRecord>, address: DeviceAddress) -> bool {
    exists|i: int| 0 <= i < slots.len() && #[trigger] slots[i].evidence.address == address
}

/// Why the scanned function at `at` cannot enter the census, if it cannot.
pub open spec fn scan_fault(
    devices: Seq<PciDevice>,
    dmar: Option<&DmarInfo>,
    secret: u64,
    at: int,
) -> Option<CensusError> {
    if exists|earlier: int|
        0 <= earlier < at && #[trigger] device_address(devices[earlier]) == device_address(
            devices[at],
        ) {
        Some(CensusError::DuplicateAddress)
    } else if !evidence_of(
        secret,
        devices[at],
        dmar_covers(dmar, device_address(devices[at])),
    ).valid() {
        Some(CensusError::InvalidEvidence)
    } else {
        None
    }
}

pub open spec fn scanned_slot(
    devices: Seq<PciDevice>,
    dmar: Option<&DmarInfo>,
    secret: u64,
    at: int,
) -> RetainedDeviceRecord {
    detected(
        evidence_of(secret, devices[at], dmar_covers(dmar, device_address(devices[at]))),
    )
}

/// The positions below `upto` whose evidence matches, in ascending order.
pub open spec fn matching_positions(
    slots: Seq<RetainedDeviceRecord>,
    manifest: DriverBindingManifest,
    upto: int,
) -> Seq<int>
    decreases upto,
{
    if upto <= 0 {
        Seq::empty()
    } else {
        let earlier = matching_positions(slots, manifest, upto - 1);
        if manifest.matches(slots[upto - 1].evidence) {
            earlier.push(upto - 1)
        } else {
            earlier
        }
    }
}

/// Why a slot cannot be claimed under a manifest, if it cannot.
pub open spec fn claim_fault(
    slot: RetainedDeviceRecord,
    manifest: DriverBindingManifest,
    available: u64,
) -> Option<CensusError> {
    if slot.state != DeviceState::Detected || !manifest.matches(slot.evidence) {
        Some(CensusError::NoMatch)
    } else if manifest.required_evidence & !slot.evidence.evidence_mask != 0 {
        Some(
            CensusError::EvidenceMissing(
                manifest.required_evidence & !slot.evidence.evidence_mask,
            ),
        )
    } else if manifest.requested_authority & !available != 0 {
        Some(CensusError::AuthorityUnavailable(manifest.requested_authority & !available))
    } else if manifest.requested_authority & !slot.evidence.family.authority_ceiling() != 0 {
        Some(
            CensusError::AuthorityExceedsClass(
                manifest.requested_authority & !slot.evidence.family.authority_ceiling(),
            ),
        )
    } else {
        None
    }
}

/// A slot after its claim.
pub open spec fn claimed(
    slot: RetainedDeviceRecord,
    manifest: DriverBindingManifest,
) -> RetainedDeviceRecord {
    RetainedDeviceRecord {
        state: DeviceState::Claimed,
        driver_id: manifest.driver_id,
        authority: manifest.requested_authority,
        ..slot
    }
}

/// The slots after every match of a manifest below `upto` was claimed.
pub open spec fn family_claimed(
    slots: Seq<RetainedDeviceRecord>,
    manifest: DriverBindingManifest,
    upto: int,
) -> Seq<RetainedDeviceRecord> {
    Seq::new(
        slots.len(),
        |i: int|
            if i < upto && manifest.matches(slots[i].evidence) {
                claimed(slots[i], manifest)
            } else {
                slots[i]
            },
    )
}

/// Whether `claim` is the sealed claim on the slot at `at` under a manifest.
pub open spec fn is_claim_on(
    claim: BindingClaim,
    secret: u64,
    manifest: DriverBindingManifest,
    slots: Seq<RetainedDeviceRecord>,
    at: int,
) -> bool {
    &&& claim.slot_of() == at as u16
    &&& claim.generation_of() == slots[at].generation
    &&& claim.address_of() == slots[at].evidence.address
    &&& claim.evidence_root_of() == slots[at].evidence.evidence_root
    &&& claim.driver_of() == manifest.driver_id
    &&& claim.authority_of() == manifest.requested_authority
    &&& claim.root_of() == crate::seal::seal_of(secret, claim.words())
}

/// Why a claim is not live against the slots, if it is not.
pub open spec fn live_fault(
    secret: u64,
    slots: Seq<RetainedDeviceRecord>,
    claim: BindingClaim,
) -> Option<CensusError> {
    let at = claim.slot_of() as int;
    if claim.root_of() == 0 || claim.root_of() != crate::seal::seal_of(secret, claim.words()) {
        Some(CensusError::StaleClaim)
    } else if at >= slots.len() {
        Some(CensusError::InvalidSlot)
    } else if slots[at].state != DeviceState::Claimed || slots[at].generation
        != claim.generation_of() || slots[at].evidence.address != claim.address_of()
        || slots[at].evidence.evidence_root != claim.evidence_root_of() || slots[at].driver_id
        != claim.driver_of() || slots[at].authority != claim.authority_of() {
        Some(CensusError::StaleClaim)
    } else {
        None
    }
}

/// The slots after a live claim reached a terminal state.
pub open spec fn terminated(
    slots: Seq<RetainedDeviceRecord>,
    claim: BindingClaim,
    state: DeviceState,
    root: u64,
) -> Seq<RetainedDeviceRecord> {
    let at = claim.slot_of() as int;
    slots.update(at, RetainedDeviceRecord { state, terminal_root: root, ..slots[at] })
}

pub open spec fn family_count(slots: Seq<RetainedDeviceRecord>, family: DeviceFamily) -> nat
    decreases slots.len(),
{
    if slots.len() == 0 {
        0
    } else {
        family_count(slots.drop_last(), family) + if slots.last().evidence.family == family {
            1nat
        } else {
            0nat
        }
    }
}

pub open spec fn state_count(slots: Seq<RetainedDeviceRecord>, state: DeviceState) -> nat
    decreases slots.len(),
{
    if slots.len() == 0 {
        0
    } else {
        state_count(slots.drop_last(), state) + if slots.last().state == state {
            1nat
        } else {
            0nat
        }
    }
}

/// Whether the summary counts every slot once by family and once by state.
pub open spec fn counts_slots(
    summary: DeviceCensusSummary,
    slots: Seq<RetainedDeviceRecord>,
) -> bool {
    &&& summary.display == family_count(slots, DeviceFamily::DisplayAdapter)
    &&& summary.audio == family_count(slots, DeviceFamily::AudioController)
    &&& summary.multimedia_video == family_count(slots, DeviceFamily::MultimediaVideoController)
    &&& summary.network == family_count(slots, DeviceFamily::NetworkController)
    &&& summary.wireless == family_count(slots, DeviceFamily::WirelessController)
    &&& summary.usb_hosts == family_count(slots, DeviceFamily::UsbHostController)
    &&& summary.input == family_count(slots, DeviceFamily::InputController)
    &&& summary.other == family_count(slots, DeviceFamily::Other)
    &&& summary.detected == state_count(slots, DeviceState::Detected)
    &&& summary.claimed == state_count(slots, DeviceState::Claimed)
    &&& summary.operational == state_count(slots, DeviceState::Operational)
    &&& summary.quarantined == state_count(slots, DeviceState::Quarantined)
    &&& summary.deferred == state_count(slots, DeviceState::Deferred)
}

/// The words that a summary root seals: the counts, then every slot.
pub open spec fn summary_words(
    summary: DeviceCensusSummary,
    slots: Seq<RetainedDeviceRecord>,
) -> Seq<u64>
    decreases slots.len(),
{
    if slots.len() == 0 {
        seq![
            summary.total as u64,
            summary.display as u64,
            summary.audio as u64,
            summary.multimedia_video as u64,
            summary.network as u64,
            summary.wireless as u64,
            summary.usb_hosts as u64,
            summary.input as u64,
            summary.other as u64,
            summary.detected as u64,
            summary.claimed as u64,
            summary.operational as u64,
            summary.quarantined as u64,
            summary.deferred as u64,
        ]
    } else {
        let slot = slots.last();
        summary_words(summary, slots.drop_last()).push(slot.evidence.evidence_root).push(
            slot.state.code() as u64,
        ).push(slot.generation as u64).push(slot.driver_id).push(slot.authority).push(
            slot.terminal_root,
        )
    }
}

/// Whether a summary is the sealed summary of the slots.
pub open spec fn summarizes(
    summary: DeviceCensusSummary,
    secret: u64,
    slots: Seq<RetainedDeviceRecord>,
) -> bool {
    &&& summary.total == slots.len()
    &&& counts_slots(summary, slots)
    &&& summary.root == crate::seal::seal_of(secret, summary_words(summary, slots))
}

pub fn evidence_root(secret: u64, evidence: PciFunctionEvidence) -> (root: u64)
    ensures
        root == crate::seal::seal_of(secret, evidence.words()),
{
    let head = Sealer::new(secret).word(evidence.address.segment as u64).word(
        evidence.address.bus as u64,
    ).word(evidence.address.slot as u64).word(evidence.address.function as u64).word(
        evidence.vendor_id as u64,
    ).word(evidence.device_id as u64).word(evidence.class_code as u64).word(
        evidence.subclass as u64,
    ).word(evidence.programming_interface as u64).word(evidence.revision as u64).word(
        evidence.header_type as u64,
    ).word(evidence.interrupt_line as u64).word(evidence.interrupt_pin as u64).word(
        evidence.command as u64,
    ).word(evidence.bar_count as u64);
    head.word(evidence.raw_bars[0] as u64).word(evidence.raw_bars[1] as u64).word(
        evidence.raw_bars[2] as u64,
    ).word(evidence.raw_bars[3] as u64).word(evidence.raw_bars[4] as u64).word(
        evidence.raw_bars[5] as u64,
    ).word(evidence.family.code() as u64).word(evidence.evidence_mask as u64).word(
        flag(evidence.dmar_covered),
    ).root()
}

fn claim_root(secret: u64, claim: BindingClaim) -> (root: u64)
    ensures
        root == crate::seal::seal_of(secret, claim.words()),
{
    Sealer::new(secret).word(claim.slot as u64).word(claim.generation as u64).word(
        claim.address.segment as u64,
    ).word(claim.address.bus as u64).word(claim.address.slot as u64).word(
        claim.address.function as u64,
    ).word(claim.evidence_root).word(claim.driver_id).word(claim.authority).root()
}

fn lease_root(secret: u64, lease: BindingLease) -> (root: u64)
    ensures
        root == crate::seal::seal_of(secret, lease.words()),
{
    Sealer::new(secret).word(lease.evidence_root).word(lease.driver_id).word(
        lease.generation as u64,
    ).word(lease.authority).word(lease.operational_root).root()
}

fn authorization_root(secret: u64, authorization: &BindingAuthorization) -> (root: u64)
    ensures
        root == crate::seal::seal_of(secret, authorization.words()),
{
    Sealer::new(secret).word(authorization.address.segment as u64).word(
        authorization.address.bus as u64,
    ).word(authorization.address.slot as u64).word(authorization.address.function as u64).word(
        authorization.evidence_root,
    ).word(authorization.generation as u64).word(authorization.driver_id).word(
        authorization.authority,
    ).root()
}

fn summary_root(
    secret: u64,
    slots: &[RetainedDeviceRecord],
    summary: DeviceCensusSummary,
) -> (root: u64)
    ensures
        root == crate::seal::seal_of(secret, summary_words(summary, slots@)),
{
    let mut sealer = Sealer::new(secret).word(summary.total as u64).word(
        summary.display as u64,
    ).word(summary.audio as u64).word(summary.multimedia_video as u64).word(
        summary.network as u64,
    ).word(summary.wireless as u64).word(summary.usb_hosts as u64).word(
        summary.input as u64,
    ).word(summary.other as u64).word(summary.detected as u64).word(summary.claimed as u64).word(
        summary.operational as u64,
    ).word(summary.quarantined as u64).word(summary.deferred as u64);
    let mut index: usize = 0;
    proof {
        assert(slots@.take(0) =~= Seq::<RetainedDeviceRecord>::empty());
    }
    while index < slots.len()
        invariant
            index <= slots@.len(),
            sealer.seed() == secret,
            sealer.words() == summary_words(summary, slots@.take(index as int)),
        decreases slots@.len() - index,
    {
        let slot = &slots[index];
        proof {
            let grown = slots@.take(index + 1);
            assert(grown.drop_last() =~= slots@.take(index as int));
            assert(grown.last() == slots@[index as int]);
        }
        sealer = sealer.word(slot.evidence.evidence_root).word(slot.state.code() as u64).word(
            slot.generation as u64,
        ).word(slot.driver_id).word(slot.authority).word(slot.terminal_root);
        index += 1;
    }
    proof {
        assert(slots@.take(index as int) =~= slots@);
    }
    sealer.root()
}

fn validate_claim(
    slot: &RetainedDeviceRecord,
    manifest: DriverBindingManifest,
    available_authority: u64,
) -> (result: Result<(), CensusError>)
    ensures
        result == (match claim_fault(*slot, manifest, available_authority) {
            Some(fault) => Err::<(), CensusError>(fault),
            None => Ok(()),
        }),
{
    if slot.state != DeviceState::Detected || !manifest.matches(slot.evidence) {
        return Err(CensusError::NoMatch);
    }
    let missing: u32 = manifest.required_evidence & !slot.evidence.evidence_mask;
    if missing != 0 {
        return Err(CensusError::EvidenceMissing(missing));
    }
    let unavailable: u64 = manifest.requested_authority & !available_authority;
    if unavailable != 0 {
        return Err(CensusError::AuthorityUnavailable(unavailable));
    }
    let excessive: u64 = manifest.requested_authority & !slot.evidence.family.authority_ceiling();
    if excessive != 0 {
        return Err(CensusError::AuthorityExceedsClass(excessive));
    }
    Ok(())
}

/// The census of one bus scan: at most `N` functions, each at its own address.
pub struct DeviceCensus<const N: usize> {
    slots: Vec<RetainedDeviceRecord>,
    secret: u64,
}

impl<const N: usize> DeviceCensus<N> {
    pub closed spec fn view(&self) -> Seq<RetainedDeviceRecord> {
        self.slots@
    }

    pub closed spec fn key(&self) -> u64 {
        self.secret
    }

    pub open spec fn wf(&self) -> bool {
        &&& self.key() != 0
        &&& self@.len() <= N
        &&& addresses_are_unique(self@)
        &&& forall|i: int| 0 <= i < self@.len() ==> (#[trigger] self@[i]).evidence.valid()
    }

    pub fn measure_pci(
        inventory: &PciInventory,
        dmar: Option<&DmarInfo>,
        secret: u64,
    ) -> (result: Result<Self, CensusError>)
        ensures
            inventory.overflowed ==> result == Err::<Self, _>(CensusError::InventoryOverflow),
            !inventory.overflowed ==> Self::measures(inventory.devices@, dmar, secret, result),
    {
        if inventory.overflowed() {
            return Err(CensusError::InventoryOverflow);
        }
        Self::measure_functions(inventory.devices(), secret, dmar)
    }

    /// What a measurement returns: a zero secret and an oversized scan are
    /// refused, then the first function that cannot enter decides; otherwise
    /// every function holds the slot of its scan position.
    pub open spec fn measures(
        devices: Seq<PciDevice>,
        dmar: Option<&DmarInfo>,
        secret: u64,
        result: Result<Self, CensusError>,
    ) -> bool {
        if secret == 0 {
            result == Err::<Self, _>(CensusError::InvalidSecret)
        } else if devices.len() > N {
            result == Err::<Self, _>(CensusError::Capacity)
        } else {
            match result {
                Ok(census) => {
                    &&& census.wf()
                    &&& census.key() == secret
                    &&& forall|i: int|
                        0 <= i < devices.len() ==> #[trigger] scan_fault(devices, dmar, secret, i)
                            is None
                    &&& census@ == Seq::new(
                        devices.len(),
                        |i: int| scanned_slot(devices, dmar, secret, i),
                    )
                },
                Err(fault) => exists|i: int|
                    {
                        &&& 0 <= i < devices.len()
                        &&& #[trigger] scan_fault(devices, dmar, secret, i) == Some(fault)
                        &&& forall|j: int|
                            0 <= j < i ==> #[trigger] scan_fault(devices, dmar, secret, j) is None
                    },
            }
        }
    }

    pub fn measure_functions(
        devices: &[PciDevice],
        secret: u64,
        dmar: Option<&DmarInfo>,
    ) -> (result: Result<Self, CensusError>)
        ensures
            Self::measures(devices@, dmar, secret, result),
    {
        if secret == 0 {
            return Err(CensusError::InvalidSecret);
        }
        if devices.len() > N {
            return Err(CensusError::Capacity);
        }
        let mut census = DeviceCensus::<N> { slots: Vec::new(), secret };
        let mut index: usize = 0;
        while index < devices.len()
            invariant
                index <= devices@.len() <= N,
                secret != 0,
                census.wf(),
                census.key() == secret,
                census@ =~= Seq::new(
                    index as nat,
                    |i: int| scanned_slot(devices@, dmar, secret, i),
                ),
                forall|i: int|
                    0 <= i < index ==> #[trigger] scan_fault(devices@, dmar, secret, i) is None,
            decreases devices@.len() - index,
        {
            let device = devices[index];
            let covered = match dmar {
                Some(table) => table.covers_endpoint(device_address(device)),
                None => false,
            };
            let ghost before = census@;
            let ghost fault = scan_fault(devices@, dmar, secret, index as int);
            proof {
                assert forall|i: int| 0 <= i < index implies #[trigger] before[i].evidence.address
                    == device_address(devices@[i]) by {}
                if holds_address(before, device_address(device)) {
                    let i = choose|i: int|
                        0 <= i < before.len() && #[trigger] before[i].evidence.address
                            == device_address(device);
                    assert(device_address(devices@[i]) == device_address(device));
                } else {
                    assert forall|earlier: int| 0 <= earlier < index implies #[trigger] device_address(
                        devices@[earlier],
                    ) != device_address(device) by {
                        assert(before[earlier].evidence.address == device_address(
                            devices@[earlier],
                        ));
                    }
                }
            }
            match census.insert(device, covered) {
                Ok(()) => {},
                Err(error) => {
                    assert(fault == Some(error));
                    return Err(error);
                },
            }
            index += 1;
        }
        Ok(census)
    }

    #[verifier::loop_isolation(false)]
    pub fn insert(&mut self, device: PciDevice, dmar_covered: bool) -> (result: Result<
        (),
        CensusError,
    >)
        requires
            old(self).wf(),
        ensures
            final(self).wf(),
            final(self).key() == old(self).key(),
            result == (if holds_address(old(self)@, device_address(device)) {
                Err(CensusError::DuplicateAddress)
            } else if !evidence_of(old(self).key(), device, dmar_covered).valid() {
                Err(CensusError::InvalidEvidence)
            } else if old(self)@.len() >= N {
                Err(CensusError::Capacity)
            } else {
                Ok::<(), CensusError>(())
            }),
            final(self)@ == (if result is Ok {
                old(self)@.push(detected(evidence_of(old(self).key(), device, dmar_covered)))
            } else {
                old(self)@
            }),
    {
        let address = device_address(device);
        let mut index: usize = 0;
        while index < self.slots.len()
            invariant
                index <= self@.len(),
                self@ == self.slots@,
                forall|i: int| 0 <= i < index ==> #[trigger] self@[i].evidence.address != address,
            decreases self@.len() - index,
        {
            if self.slots[index].evidence.address == address {
                assert(self@[index as int].evidence.address == address);
                return Err(CensusError::DuplicateAddress);
            }
            index += 1;
        }
        let mut evidence = PciFunctionEvidence {
            address,
            vendor_id: device.vendor_id,
            device_id: device.device_id,
            class_code: device.class_code,
            subclass: device.subclass,
            programming_interface: device.programming_interface,
            revision: device.revision,
            header_type: device.header_type,
            interrupt_line: device.interrupt_line,
            interrupt_pin: device.interrupt_pin,
            command: device.command,
            bar_count: device.bar_count,
            raw_bars: device.raw_bars,
            family: classify(device),
            evidence_mask: observed_evidence(device.interrupt_pin, dmar_covered),
            dmar_covered,
            evidence_root: 0,
        };
        evidence.evidence_root = evidence_root(self.secret, evidence);
        assert(evidence == evidence_of(self.key(), device, dmar_covered));
        if !evidence.valid() {
            return Err(CensusError::InvalidEvidence);
        }
        if self.slots.len() >= N {
            return Err(CensusError::Capacity);
        }
        self.slots.push(
            RetainedDeviceRecord {
                evidence,
                state: DeviceState::Detected,
                generation: 1,
                driver_id: 0,
                authority: 0,
                terminal_root: 0,
            },
        );
        Ok(())
    }

    /// The evidence of every slot, in slot order.
    pub fn evidence(&self) -> (evidence: Vec<PciFunctionEvidence>)
        ensures
            evidence@ == self@.map_values(|slot: RetainedDeviceRecord| slot.evidence),
    {
        let mut evidence: Vec<PciFunctionEvidence> = Vec::new();
        let mut index: usize = 0;
        while index < self.slots.len()
            invariant
                index <= self@.len(),
                self@ == self.slots@,
                evidence@.len() == index,
                forall|i: int| 0 <= i < index ==> evidence@[i] == self@[i].evidence,
            decreases self@.len() - index,
        {
            evidence.push(self.slots[index].evidence);
            index += 1;
        }
        evidence
    }

    pub fn record(&self, address: DeviceAddress) -> (record: Option<RetainedDeviceRecord>)
        requires
            self.wf(),
        ensures
            match record {
                Some(slot) => slot.evidence.address == address && self@.contains(slot),
                None => !holds_address(self@, address),
            },
    {
        let mut index: usize = 0;
        while index < self.slots.len()
            invariant
                index <= self@.len(),
                self@ == self.slots@,
                forall|i: int| 0 <= i < index ==> #[trigger] self@[i].evidence.address != address,
            decreases self@.len() - index,
        {
            if self.slots[index].evidence.address == address {
                return Some(self.slots[index]);
            }
            index += 1;
        }
        None
    }

    /// Claims every match of a manifest, or none: the first match that cannot
    /// be claimed refuses the whole family and leaves the census as it was.
    #[verifier::loop_isolation(false)]
    pub fn claim_family<const M: usize>(
        &mut self,
        manifest: DriverBindingManifest,
        available_authority: u64,
    ) -> (result: Result<BindingClaimSet<M>, CensusError>)
        requires
            old(self).wf(),
        ensures
            final(self).wf(),
            final(self).key() == old(self).key(),
            result is Err ==> final(self)@ == old(self)@,
            ({
                let slots = old(self)@;
                let positions = matching_positions(slots, manifest, slots.len() as int);
                if !manifest.valid() {
                    result == Err::<BindingClaimSet<M>, _>(CensusError::InvalidManifest)
                } else if positions.len() > M {
                    result == Err::<BindingClaimSet<M>, _>(CensusError::Capacity)
                } else {
                    match result {
                        Ok(claims) => {
                            &&& forall|k: int|
                                0 <= k < positions.len() ==> claim_fault(
                                    slots[#[trigger] positions[k]],
                                    manifest,
                                    available_authority,
                                ) is None
                            &&& final(self)@ == family_claimed(
                                slots,
                                manifest,
                                slots.len() as int,
                            )
                            &&& claims@.len() == positions.len()
                            &&& forall|k: int|
                                0 <= k < positions.len() ==> is_claim_on(
                                    claims@[k],
                                    old(self).key(),
                                    manifest,
                                    slots,
                                    #[trigger] positions[k],
                                )
                        },
                        Err(fault) => exists|k: int|
                            {
                                &&& 0 <= k < positions.len()
                                &&& claim_fault(
                                    slots[#[trigger] positions[k]],
                                    manifest,
                                    available_authority,
                                ) == Some(fault)
                                &&& forall|j: int|
                                    0 <= j < k ==> claim_fault(
                                        slots[#[trigger] positions[j]],
                                        manifest,
                                        available_authority,
                                    ) is None
                            },
                    }
                }
            }),
    {
        if !manifest.valid() {
            return Err(CensusError::InvalidManifest);
        }
        let ghost slots = self@;
        let total: usize = self.slots.len();
        let mut matching: usize = 0;
        let mut index: usize = 0;
        while index < total
            invariant
                index <= total,
                total == self@.len(),
                self@ == self.slots@,
                self@ == slots,
                matching <= index,
                matching == matching_positions(slots, manifest, index as int).len(),
            decreases total - index,
        {
            if manifest.matches(self.slots[index].evidence) {
                matching += 1;
            }
            index += 1;
        }
        if matching > M {
            return Err(CensusError::Capacity);
        }
        let ghost positions = matching_positions(slots, manifest, total as int);
        let mut checked: usize = 0;
        while checked < total
            invariant
                checked <= total,
                total == self@.len(),
                self@ == self.slots@,
                self@ == slots,
                positions == matching_positions(slots, manifest, total as int),
                forall|k: int|
                    0 <= k < matching_positions(slots, manifest, checked as int).len()
                        ==> claim_fault(
                        slots[#[trigger] matching_positions(slots, manifest, checked as int)[k]],
                        manifest,
                        available_authority,
                    ) is None,
            decreases total - checked,
        {
            proof {
                lemma_positions_extend(slots, manifest, checked as int, total as int);
                lemma_positions_extend(slots, manifest, checked + 1, total as int);
            }
            if manifest.matches(self.slots[checked].evidence) {
                let ghost earlier = matching_positions(slots, manifest, checked as int);
                match validate_claim(&self.slots[checked], manifest, available_authority) {
                    Ok(()) => {},
                    Err(error) => {
                        assert(positions[earlier.len() as int] == checked);
                        assert forall|j: int| 0 <= j < earlier.len() implies claim_fault(
                            slots[#[trigger] positions[j]],
                            manifest,
                            available_authority,
                        ) is None by {
                            assert(positions[j] == earlier[j]);
                        }
                        return Err(error);
                    },
                }
            }
            checked += 1;
        }
        let mut claims: Vec<BindingClaim> = Vec::new();
        let ghost secret = self.key();
        let mut at: usize = 0;
        proof {
            assert(family_claimed(slots, manifest, 0) =~= slots);
        }
        while at < total
            invariant
                at <= total,
                total == slots.len(),
                total <= N,
                self@ == self.slots@,
                self.key() == secret,
                secret != 0,
                addresses_are_unique(slots),
                forall|i: int| 0 <= i < slots.len() ==> (#[trigger] slots[i]).evidence.valid(),
                self@ == family_claimed(slots, manifest, at as int),
                claims@.len() == matching_positions(slots, manifest, at as int).len(),
                forall|k: int|
                    0 <= k < claims@.len() ==> is_claim_on(
                        #[trigger] claims@[k],
                        secret,
                        manifest,
                        slots,
                        matching_positions(slots, manifest, at as int)[k],
                    ),
            decreases total - at,
        {
            let slot = self.slots[at];
            assert(slot == slots[at as int]);
            if manifest.matches(slot.evidence) {
                let mut claim = BindingClaim {
                    slot: at as u16,
                    generation: slot.generation,
                    address: slot.evidence.address,
                    evidence_root: slot.evidence.evidence_root,
                    driver_id: manifest.driver_id,
                    authority: manifest.requested_authority,
                    claim_root: 0,
                };
                let root: u64 = claim_root(self.secret, claim);
                let ghost unsealed = claim;
                claim.claim_root = root;
                assert(claim.words() == unsealed.words());
                let changed = RetainedDeviceRecord {
                    state: DeviceState::Claimed,
                    driver_id: manifest.driver_id,
                    authority: manifest.requested_authority,
                    ..slot
                };
                self.slots.set(at, changed);
                claims.push(claim);
            }
            assert(self.slots@ =~= family_claimed(slots, manifest, at + 1));
            at += 1;
        }
        Ok(BindingClaimSet { claims })
    }

    pub fn authorize(
        &self,
        claim: BindingClaim,
        driver_id: u64,
        required_authority: u64,
    ) -> (result: Result<BindingAuthorization, CensusError>)
        requires
            self.wf(),
        ensures
            match live_fault(self.key(), self@, claim) {
                Some(fault) => result == Err::<BindingAuthorization, _>(fault),
                None => if driver_id == 0 || required_authority == 0 || claim.driver_of()
                    != driver_id || claim.authority_of() & required_authority
                    != required_authority {
                    result == Err::<BindingAuthorization, _>(CensusError::AuthorizationMismatch)
                } else {
                    result matches Ok(authorization) && {
                        &&& authorization.address_of() == claim.address_of()
                        &&& authorization.evidence_root_of() == claim.evidence_root_of()
                        &&& authorization.generation_of() == claim.generation_of()
                        &&& authorization.driver_of() == driver_id
                        &&& authorization.authority_of() == required_authority
                        &&& authorization.root_of() == crate::seal::seal_of(
                            self.key(),
                            authorization.words(),
                        )
                    }
                },
            },
    {
        match self.live_slot(claim) {
            Ok(_) => {},
            Err(error) => {
                return Err(error);
            },
        }
        if driver_id == 0 || required_authority == 0 || claim.driver_id != driver_id
            || claim.authority & required_authority != required_authority {
            return Err(CensusError::AuthorizationMismatch);
        }
        let mut authorization = BindingAuthorization {
            address: claim.address,
            evidence_root: claim.evidence_root,
            generation: claim.generation,
            driver_id,
            authority: required_authority,
            authorization_root: 0,
        };
        let ghost unsealed = authorization;
        authorization.authorization_root = authorization_root(self.secret, &authorization);
        assert(authorization.words() == unsealed.words());
        Ok(authorization)
    }

    pub fn commit(&mut self, claim: BindingClaim, operational_root: u64) -> (result: Result<
        BindingLease,
        CensusError,
    >)
        requires
            old(self).wf(),
        ensures
            final(self).wf(),
            final(self).key() == old(self).key(),
            ({
                let fault = if operational_root == 0 {
                    Some(CensusError::InvalidTerminalRoot)
                } else {
                    live_fault(old(self).key(), old(self)@, claim)
                };
                match fault {
                    Some(fault) => {
                        &&& result == Err::<BindingLease, _>(fault)
                        &&& final(self)@ == old(self)@
                    },
                    None => {
                        &&& final(self)@ == terminated(
                            old(self)@,
                            claim,
                            DeviceState::Operational,
                            operational_root,
                        )
                        &&& result matches Ok(lease) && {
                            &&& lease.address == claim.address_of()
                            &&& lease.generation == claim.generation_of()
                            &&& lease.driver_id == claim.driver_of()
                            &&& lease.authority == claim.authority_of()
                            &&& lease.evidence_root == claim.evidence_root_of()
                            &&& lease.operational_root == operational_root
                            &&& lease.lease_root == crate::seal::seal_of(
                                old(self).key(),
                                lease.words(),
                            )
                        }
                    },
                }
            }),
    {
        if operational_root == 0 {
            return Err(CensusError::InvalidTerminalRoot);
        }
        match self.terminate(claim, DeviceState::Operational, operational_root) {
            Ok(()) => {},
            Err(error) => {
                return Err(error);
            },
        }
        let mut lease = BindingLease {
            address: claim.address,
            generation: claim.generation,
            driver_id: claim.driver_id,
            authority: claim.authority,
            evidence_root: claim.evidence_root,
            operational_root,
            lease_root: 0,
        };
        let ghost unsealed = lease;
        lease.lease_root = lease_root(self.secret, lease);
        assert(lease.words() == unsealed.words());
        Ok(lease)
    }

    pub fn quarantine(&mut self, claim: BindingClaim, containment_root: u64) -> (result: Result<
        (),
        CensusError,
    >)
        requires
            old(self).wf(),
        ensures
            final(self).wf(),
            final(self).key() == old(self).key(),
            old(self).terminates(
                claim,
                DeviceState::Quarantined,
                containment_root,
                final(self)@,
                result,
            ),
    {
        if containment_root == 0 {
            return Err(CensusError::InvalidTerminalRoot);
        }
        self.terminate(claim, DeviceState::Quarantined, containment_root)
    }

    pub fn defer(&mut self, claim: BindingClaim, prerequisite_root: u64) -> (result: Result<
        (),
        CensusError,
    >)
        requires
            old(self).wf(),
        ensures
            final(self).wf(),
            final(self).key() == old(self).key(),
            old(self).terminates(
                claim,
                DeviceState::Deferred,
                prerequisite_root,
                final(self)@,
                result,
            ),
    {
        if prerequisite_root == 0 {
            return Err(CensusError::InvalidTerminalRoot);
        }
        self.terminate(claim, DeviceState::Deferred, prerequisite_root)
    }

    /// What ends a claim: a zero root is refused, then a claim that is not
    /// live; otherwise its slot takes the terminal state and root.
    pub open spec fn terminates(
        &self,
        claim: BindingClaim,
        state: DeviceState,
        root: u64,
        after: Seq<RetainedDeviceRecord>,
        result: Result<(), CensusError>,
    ) -> bool {
        let fault = if root == 0 {
            Some(CensusError::InvalidTerminalRoot)
        } else {
            live_fault(self.key(), self@, claim)
        };
        match fault {
            Some(fault) => result == Err::<(), _>(fault) && after == self@,
            None => result == Ok::<(), CensusError>(()) && after == terminated(
                self@,
                claim,
                state,
                root,
            ),
        }
    }

    fn terminate(&mut self, claim: BindingClaim, state: DeviceState, root: u64) -> (result: Result<
        (),
        CensusError,
    >)
        requires
            old(self).wf(),
            root != 0,
        ensures
            final(self).wf(),
            final(self).key() == old(self).key(),
            old(self).terminates(claim, state, root, final(self)@, result),
    {
        match self.live_slot(claim) {
            Ok(at) => {
                let slot = self.slots[at];
                self.slots.set(at, RetainedDeviceRecord { state, terminal_root: root, ..slot });
                Ok(())
            },
            Err(error) => Err(error),
        }
    }

    /// The slot of a live claim.
    fn live_slot(&self, claim: BindingClaim) -> (result: Result<usize, CensusError>)
        ensures
            match live_fault(self.key(), self@, claim) {
                Some(fault) => result == Err::<usize, _>(fault),
                None => result == Ok::<usize, CensusError>(claim.slot_of() as usize),
            },
    {
        if claim.claim_root == 0 || claim.claim_root != claim_root(self.secret, claim) {
            return Err(CensusError::StaleClaim);
        }
        let at: usize = claim.slot as usize;
        if at >= self.slots.len() {
            return Err(CensusError::InvalidSlot);
        }
        let slot = &self.slots[at];
        if slot.state != DeviceState::Claimed || slot.generation != claim.generation
            || slot.evidence.address != claim.address || slot.evidence.evidence_root
            != claim.evidence_root || slot.driver_id != claim.driver_id || slot.authority
            != claim.authority {
            return Err(CensusError::StaleClaim);
        }
        Ok(at)
    }

    pub fn summary(&self) -> (summary: DeviceCensusSummary)
        ensures
            summarizes(summary, self.key(), self@),
    {
        let slots = self.slots.as_slice();
        let mut summary = DeviceCensusSummary {
            total: self.slots.len(),
            display: count_family(slots, DeviceFamily::DisplayAdapter),
            audio: count_family(slots, DeviceFamily::AudioController),
            multimedia_video: count_family(slots, DeviceFamily::MultimediaVideoController),
            network: count_family(slots, DeviceFamily::NetworkController),
            wireless: count_family(slots, DeviceFamily::WirelessController),
            usb_hosts: count_family(slots, DeviceFamily::UsbHostController),
            input: count_family(slots, DeviceFamily::InputController),
            other: count_family(slots, DeviceFamily::Other),
            detected: count_state(slots, DeviceState::Detected),
            claimed: count_state(slots, DeviceState::Claimed),
            operational: count_state(slots, DeviceState::Operational),
            quarantined: count_state(slots, DeviceState::Quarantined),
            deferred: count_state(slots, DeviceState::Deferred),
            root: 0,
        };
        let ghost unsealed = summary;
        summary.root = summary_root(self.secret, slots, summary);
        proof {
            lemma_summary_words_ignore_root(unsealed, summary.root, self@);
        }
        summary
    }
}

fn count_family(slots: &[RetainedDeviceRecord], family: DeviceFamily) -> (count: usize)
    ensures
        count == family_count(slots@, family),
{
    let mut count: usize = 0;
    let mut index: usize = 0;
    proof {
        assert(slots@.take(0) =~= Seq::<RetainedDeviceRecord>::empty());
    }
    while index < slots.len()
        invariant
            index <= slots@.len(),
            count <= index,
            count == family_count(slots@.take(index as int), family),
        decreases slots@.len() - index,
    {
        proof {
            let grown = slots@.take(index + 1);
            assert(grown.drop_last() =~= slots@.take(index as int));
        }
        if slots[index].evidence.family == family {
            count += 1;
        }
        index += 1;
    }
    proof {
        assert(slots@.take(index as int) =~= slots@);
    }
    count
}

fn count_state(slots: &[RetainedDeviceRecord], state: DeviceState) -> (count: usize)
    ensures
        count == state_count(slots@, state),
{
    let mut count: usize = 0;
    let mut index: usize = 0;
    proof {
        assert(slots@.take(0) =~= Seq::<RetainedDeviceRecord>::empty());
    }
    while index < slots.len()
        invariant
            index <= slots@.len(),
            count <= index,
            count == state_count(slots@.take(index as int), state),
        decreases slots@.len() - index,
    {
        proof {
            let grown = slots@.take(index + 1);
            assert(grown.drop_last() =~= slots@.take(index as int));
        }
        if slots[index].state == state {
            count += 1;
        }
        index += 1;
    }
    proof {
        assert(slots@.take(index as int) =~= slots@);
    }
    count
}

proof fn lemma_summary_words_ignore_root(
    summary: DeviceCensusSummary,
    root: u64,
    slots: Seq<RetainedDeviceRecord>,
)
    ensures
        summary_words(DeviceCensusSummary { root, ..summary }, slots) == summary_words(
            summary,
            slots,
        ),
    decreases slots.len(),
{
    if slots.len() > 0 {
        lemma_summary_words_ignore_root(summary, root, slots.drop_last());
    }
}

proof fn lemma_positions_extend(
    slots: Seq<RetainedDeviceRecord>,
    manifest: DriverBindingManifest,
    upto: int,
    total: int,
)
    requires
        0 <= upto <= total,
    ensures
        matching_positions(slots, manifest, upto).len() <= matching_positions(
            slots,
            manifest,
            total,
        ).len(),
        forall|k: int|
            0 <= k < matching_positions(slots, manifest, upto).len() ==> matching_positions(
                slots,
                manifest,
                upto,
            )[k] == #[trigger] matching_positions(slots, manifest, total)[k],
    decreases total - upto,
{
    if upto < total {
        lemma_positions_extend(slots, manifest, upto, total - 1);
    }
}

pub type BootDeviceCensus = DeviceCensus<MAXIMUM_BOOT_DEVICES>;

/// Publishes the boot census into its slot, once.
pub fn publish_boot_census(
    published: &mut Option<BootDeviceCensus>,
    census: BootDeviceCensus,
) -> (result: Result<DeviceCensusSummary, CensusError>)
    ensures
        match *old(published) {
            Some(_) => {
                &&& result == Err::<DeviceCensusSummary, _>(CensusError::AlreadyPublished)
                &&& *final(published) == *old(published)
            },
            None => {
                &&& result matches Ok(summary) && summarizes(summary, census.key(), census@)
                &&& *final(published) == Some(census)
            },
        },
{
    let summary = census.summary();
    if published.is_some() {
        return Err(CensusError::AlreadyPublished);
    }
    *published = Some(census);
    Ok(summary)
}

pub fn boot_census_summary(published: &Option<BootDeviceCensus>) -> (summary: Option<
    DeviceCensusSummary,
>)
    ensures
        match *published {
            Some(census) => summary matches Some(summary) && summarizes(
                summary,
                census.key(),
                census@,
            ),
            None => summary is None,
        },
{
    match published {
        Some(census) => Some(census.summary()),
        None => None,
    }
}

pub fn boot_device_record(
    published: &Option<BootDeviceCensus>,
    address: DeviceAddress,
) -> (record: Option<RetainedDeviceRecord>)
    requires
        published is Some ==> published->0.wf(),
    ensures
        match *published {
            Some(census) => match record {
                Some(slot) => slot.evidence.address == address && census@.contains(slot),
                None => !holds_address(census@, address),
            },
            None => record is None,
        },
{
    match published {
        Some(census) => census.record(address),
        None => None,
    }
}

/// A claim is spent by whatever ends it: committing, quarantining or deferring
/// a claim leaves every later use of the same claim stale.
pub proof fn law_a_terminated_claim_is_stale(
    secret: u64,
    slots: Seq<RetainedDeviceRecord>,
    claim: BindingClaim,
    state: DeviceState,
    root: u64,
)
    requires
        live_fault(secret, slots, claim) is None,
        state != DeviceState::Claimed,
    ensures
        live_fault(secret, terminated(slots, claim, state, root), claim) == Some(
            CensusError::StaleClaim,
        ),
{
}

/// Ending one claim leaves the standing of every claim on another slot as it was.
pub proof fn law_terminating_one_claim_keeps_the_others(
    secret: u64,
    slots: Seq<RetainedDeviceRecord>,
    claim: BindingClaim,
    other: BindingClaim,
    state: DeviceState,
    root: u64,
)
    requires
        live_fault(secret, slots, claim) is None,
        claim.slot_of() != other.slot_of(),
    ensures
        live_fault(secret, terminated(slots, claim, state, root), other) == live_fault(
            secret,
            slots,
            other,
        ),
{
}

/// A claim that a family claim hands out is live in the census that it leaves,
/// unless its seal happens to be zero.
pub proof fn law_a_fresh_claim_is_live(
    secret: u64,
    slots: Seq<RetainedDeviceRecord>,
    manifest: DriverBindingManifest,
    claim: BindingClaim,
    at: int,
)
    requires
        0 <= at < slots.len() <= 0x1_0000,
        manifest.matches(slots[at].evidence),
        is_claim_on(claim, secret, manifest, slots, at),
        claim.root_of() != 0,
    ensures
        live_fault(secret, family_claimed(slots, manifest, slots.len() as int), claim) is None,
{
    assert(at as u16 == at);
}

/// A claimed family cannot be claimed again: every slot it took refuses the
/// next claim.
pub proof fn law_a_claimed_family_refuses_the_next_claim(
    slots: Seq<RetainedDeviceRecord>,
    manifest: DriverBindingManifest,
    other: DriverBindingManifest,
    available: u64,
    at: int,
)
    requires
        0 <= at < slots.len(),
        manifest.matches(slots[at].evidence),
    ensures
        claim_fault(
            family_claimed(slots, manifest, slots.len() as int)[at],
            other,
            available,
        ) == Some(CensusError::NoMatch),
{
}

/// Claiming and terminating never rewrite what the bus proved.
pub proof fn law_evidence_outlives_every_transition(
    slots: Seq<RetainedDeviceRecord>,
    manifest: DriverBindingManifest,
    claim: BindingClaim,
    state: DeviceState,
    root: u64,
    at: int,
)
    requires
        0 <= at < slots.len(),
        (claim.slot_of() as int) < slots.len(),
    ensures
        family_claimed(slots, manifest, slots.len() as int)[at].evidence == slots[at].evidence,
        terminated(slots, claim, state, root)[at].evidence == slots[at].evidence,
{
}

/// Every function is counted once by its family and once by its state.
pub proof fn law_summary_accounts_for_every_slot(
    summary: DeviceCensusSummary,
    secret: u64,
    slots: Seq<RetainedDeviceRecord>,
)
    requires
        summarizes(summary, secret, slots),
    ensures
        summary.display + summary.audio + summary.multimedia_video + summary.network
            + summary.wireless + summary.usb_hosts + summary.input + summary.other
            == summary.total,
        summary.detected + summary.claimed + summary.operational + summary.quarantined
            + summary.deferred == summary.total,
{
    lemma_counts_sum(slots);
}

proof fn lemma_counts_sum(slots: Seq<RetainedDeviceRecord>)
    ensures
        family_count(slots, DeviceFamily::DisplayAdapter) + family_count(
            slots,
            DeviceFamily::AudioController,
        ) + family_count(slots, DeviceFamily::MultimediaVideoController) + family_count(
            slots,
            DeviceFamily::NetworkController,
        ) + family_count(slots, DeviceFamily::WirelessController) + family_count(
            slots,
            DeviceFamily::UsbHostController,
        ) + family_count(slots, DeviceFamily::InputController) + family_count(
            slots,
            DeviceFamily::Other,
        ) == slots.len(),
        state_count(slots, DeviceState::Detected) + state_count(slots, DeviceState::Claimed)
            + state_count(slots, DeviceState::Operational) + state_count(
            slots,
            DeviceState::Quarantined,
        ) + state_count(slots, DeviceState::Deferred) == slots.len(),
    decreases slots.len(),
{
    if slots.len() > 0 {
        lemma_counts_sum(slots.drop_last());
    }
}

/// Evidence that differs from other evidence in one sealed word has another
/// root.
pub proof fn law_evidence_root_binds_every_word(
    secret: u64,
    evidence: PciFunctionEvidence,
    other: PciFunctionEvidence,
    at: int,
)
    requires
        0 <= at < evidence.words().len(),
        evidence.words()[at] != other.words()[at],
        forall|i: int|
            0 <= i < evidence.words().len() && i != at ==> evidence.words()[i]
                == #[trigger] other.words()[i],
    ensures
        crate::seal::seal_of(secret, evidence.words()) != crate::seal::seal_of(
            secret,
            other.words(),
        ),
{
    assert(other.words() =~= evidence.words().update(at, other.words()[at]));
    crate::seal::law_root_binds_every_word(secret, evidence.words(), at, other.words()[at]);
}

/// Two functions measured under one secret that differ in the interrupt line
/// alone carry different evidence roots.
pub proof fn law_interrupt_line_reseals_the_evidence(
    secret: u64,
    device: PciDevice,
    line: u8,
    dmar_covered: bool,
)
    requires
        line != device.interrupt_line,
    ensures
        evidence_of(secret, device, dmar_covered).evidence_root != evidence_of(
            secret,
            PciDevice { interrupt_line: line, ..device },
            dmar_covered,
        ).evidence_root,
{
    law_evidence_root_binds_every_word(
        secret,
        unsealed_evidence(device, dmar_covered),
        unsealed_evidence(PciDevice { interrupt_line: line, ..device }, dmar_covered),
        11,
    );
}

} // verus!
