//! Measured evidence about one display function.

use crate::pci::PciAddress;
use crate::seal::{avalanche, flag, Sealer};
pub use super::configuration::{ConfigurationEvent, ConfigurationTrace, PciConfigReader};
use vstd::prelude::*;

use super::inventory::{DisplayFunctionInventory, InventoryModel, PciFunctionRecord};

verus! {

pub const PCI_CLASS_DISPLAY: u8 = 0x03;

pub const PCI_SUBCLASS_VGA: u8 = 0x00;

pub const PCI_SUBCLASS_XGA: u8 = 0x01;

pub const PCI_SUBCLASS_3D: u8 = 0x02;

pub const VENDOR_NVIDIA: u16 = 0x10de;

pub const VENDOR_AMD: u16 = 0x1002;

pub const VENDOR_INTEL: u16 = 0x8086;

pub const VENDOR_VIRTIO: u16 = 0x1af4;

pub const VENDOR_VMWARE: u16 = 0x15ad;

pub const VENDOR_REDHAT: u16 = 0x1b36;

pub const VENDOR_BOCHS: u16 = 0x1234;

pub const CAP_MSI: u32 = 1 << 0;

pub const CAP_MSIX: u32 = 1 << 1;

pub const CAP_PCIE: u32 = 1 << 2;

pub const CAP_POWER_MANAGEMENT: u32 = 1 << 3;

pub const CAP_AGP: u32 = 1 << 4;

pub const CAP_VENDOR_SPECIFIC: u32 = 1 << 5;

pub const CAP_ADVANCED_ERROR_REPORTING: u32 = 1 << 6;

pub const CAP_ACCESS_CONTROL_SERVICES: u32 = 1 << 7;

pub const CAP_SRIOV: u32 = 1 << 8;

pub const CAP_RESIZABLE_BAR: u32 = 1 << 9;

pub const CAP_ADDRESS_TRANSLATION: u32 = 1 << 10;

pub const BAR_PRESENT: u8 = 1 << 0;

pub const BAR_IO: u8 = 1 << 1;

pub const BAR_64BIT: u8 = 1 << 2;

pub const BAR_PREFETCHABLE: u8 = 1 << 3;

pub const TOPOLOGY_BOOT_DISPLAY: u32 = 1 << 0;

pub const TOPOLOGY_INTERNAL_PANEL: u32 = 1 << 1;

pub const TOPOLOGY_REMOVABLE: u32 = 1 << 2;

pub const TOPOLOGY_IOMMU_PRESENT: u32 = 1 << 3;

pub const TOPOLOGY_IOMMU_ISOLATED: u32 = 1 << 4;

pub const TOPOLOGY_FIRMWARE_FRAMEBUFFER: u32 = 1 << 5;

pub const TOPOLOGY_HOTPLUG_PORT: u32 = 1 << 6;

pub const TOPOLOGY_VIRTUAL_MACHINE: u32 = 1 << 7;

pub const TOPOLOGY_INVENTORY_OVERFLOW: u32 = 1 << 8;

pub const TOPOLOGY_CONFIG_INCOMPLETE: u32 = 1 << 9;

pub const MAXIMUM_GPU_FINGERPRINTS: usize = 16;

pub const MAXIMUM_CAPABILITY_HOPS: usize = 48;

pub const MAXIMUM_EXTENDED_HOPS: usize = 64;

pub const PCI_CONFIGURATION_DWORDS: usize = 64;

pub const EXTENDED_CONFIGURATION_DWORDS: usize = 1024;

pub const STATUS_CAPABILITIES_LIST: u16 = 1 << 4;

pub const FINGERPRINT_DOMAIN: u64 = 0x4452_4956_4552_4e45;

#[derive(Clone, Copy, Debug, PartialEq, Eq, Structural)]
pub enum FirmwareFramebufferKind {
    Absent,
    UefiGop,
    Vbe,
    SimpleFramebuffer,
    Hypervisor,
}

impl FirmwareFramebufferKind {
    #[verifier::allow_in_spec]
    pub fn code(self) -> u8
        returns
            (match self {
                FirmwareFramebufferKind::Absent => 0u8,
                FirmwareFramebufferKind::UefiGop => 1u8,
                FirmwareFramebufferKind::Vbe => 2u8,
                FirmwareFramebufferKind::SimpleFramebuffer => 3u8,
                FirmwareFramebufferKind::Hypervisor => 4u8,
            }),
    {
        match self {
            FirmwareFramebufferKind::Absent => 0,
            FirmwareFramebufferKind::UefiGop => 1,
            FirmwareFramebufferKind::Vbe => 2,
            FirmwareFramebufferKind::SimpleFramebuffer => 3,
            FirmwareFramebufferKind::Hypervisor => 4,
        }
    }
}

#[derive(Clone, Copy, Debug, PartialEq, Eq, Structural)]
pub struct FirmwareFramebufferEvidence {
    pub kind: FirmwareFramebufferKind,
    pub physical_address: u64,
    pub width: u32,
    pub height: u32,
    pub pitch: u32,
    pub format: u32,
    pub byte_length: u64,
    pub owner: Option<PciFunctionAddress>,
    pub retained: bool,
}

impl FirmwareFramebufferEvidence {
    /// No framebuffer.
    #[verifier::allow_in_spec]
    pub fn none() -> FirmwareFramebufferEvidence
        returns
            (FirmwareFramebufferEvidence {
                kind: FirmwareFramebufferKind::Absent,
                physical_address: 0,
                width: 0,
                height: 0,
                pitch: 0,
                format: 0,
                byte_length: 0,
                owner: None,
                retained: false,
            }),
    {
        FirmwareFramebufferEvidence {
            kind: FirmwareFramebufferKind::Absent,
            physical_address: 0,
            width: 0,
            height: 0,
            pitch: 0,
            format: 0,
            byte_length: 0,
            owner: None,
            retained: false,
        }
    }

    /// Whether the framebuffer is described in full and still retained.
    #[verifier::allow_in_spec]
    pub fn usable(self) -> bool
        returns
            ({
                &&& self.kind != FirmwareFramebufferKind::Absent
                &&& self.width != 0
                &&& self.height != 0
                &&& self.pitch != 0
                &&& self.byte_length != 0
                &&& self.retained
            }),
    {
        self.kind != FirmwareFramebufferKind::Absent && self.width != 0 && self.height != 0
            && self.pitch != 0 && self.byte_length != 0 && self.retained
    }
}

#[derive(Clone, Copy, Debug, PartialEq, Eq)]
pub struct TopologyEvidence {
    pub segment: u16,
    pub acpi_path_hash: u64,
    pub iommu_group: u32,
    pub upstream_vendor_id: u16,
    pub upstream_device_id: u16,
    pub root_port_depth: u8,
    pub sibling_display_functions: u8,
    pub topology_flags: u32,
    pub resource_lengths: [u64; 6],
    pub firmware_framebuffer: FirmwareFramebufferEvidence,
}

impl TopologyEvidence {
    /// Nothing is known of where a function sits.
    #[verifier::allow_in_spec]
    pub fn empty() -> TopologyEvidence
        returns
            (TopologyEvidence {
            segment: 0,
            acpi_path_hash: 0,
            iommu_group: u32::MAX,
            upstream_vendor_id: 0xffff,
            upstream_device_id: 0xffff,
            root_port_depth: 0,
            sibling_display_functions: 0,
            topology_flags: 0,
            resource_lengths: [0u64, 0u64, 0u64, 0u64, 0u64, 0u64],
            firmware_framebuffer: FirmwareFramebufferEvidence::none(),
        }),
    {
        TopologyEvidence {
            segment: 0,
            acpi_path_hash: 0,
            iommu_group: u32::MAX,
            upstream_vendor_id: 0xffff,
            upstream_device_id: 0xffff,
            root_port_depth: 0,
            sibling_display_functions: 0,
            topology_flags: 0,
            resource_lengths: [0u64, 0u64, 0u64, 0u64, 0u64, 0u64],
            firmware_framebuffer: FirmwareFramebufferEvidence::none(),
        }
    }
}

/// What the platform knows of where a function sits and of the boot display.
pub trait TopologyEvidenceProvider {
    spec fn topology_of(&self, function: PciFunctionRecord) -> TopologyEvidence;

    spec fn boot_framebuffer(&self) -> FirmwareFramebufferEvidence;

    fn evidence_for(&self, function: &PciFunctionRecord) -> (evidence: TopologyEvidence)
        ensures
            evidence == self.topology_of(*function),
    ;

    fn firmware_framebuffer(&self) -> (evidence: FirmwareFramebufferEvidence)
        ensures
            evidence == self.boot_framebuffer(),
    ;
}

#[derive(Clone, Copy, Debug, PartialEq, Eq, Structural)]
pub struct PciFunctionAddress {
    pub segment: u16,
    pub bus: u8,
    pub slot: u8,
    pub function: u8,
}

impl PciFunctionAddress {
    /// The legacy address, which only segment zero has.
    #[verifier::allow_in_spec]
    pub fn legacy(self) -> Option<PciAddress>
        returns
            (if self.segment != 0 {
                None::<PciAddress>
            } else {
                PciAddress::new(self.bus, self.slot, self.function)
            }),
    {
        if self.segment != 0 {
            return None;
        }
        PciAddress::new(self.bus, self.slot, self.function)
    }
}

#[derive(Clone, Copy, Debug, PartialEq, Eq, Structural)]
pub enum FingerprintError {
    OutputCapacity,
    ConfigurationRead,
    UnalignedConfigurationOffset,
    UnsupportedConfigurationOffset,
    UnsupportedPciSegment,
    CapabilityCycle,
    CapabilityOutOfRange,
    InvalidHeader,
    MissingFirmwareEvidence,
}

pub const LEGACY_MAXIMUM_OFFSET: u16 = 0x00ff;

/// The port and register that the legacy mechanism selects for a read.
#[verifier::allow_in_spec]
pub fn legacy_selection(address: PciFunctionAddress, offset: u16) -> Result<
    (PciAddress, u8),
    FingerprintError,
>
    returns
        (if offset & 3 != 0 {
            Err(FingerprintError::UnalignedConfigurationOffset)
        } else if offset > LEGACY_MAXIMUM_OFFSET {
            Err(FingerprintError::UnsupportedConfigurationOffset)
        } else {
            match address.legacy() {
                None => Err(FingerprintError::UnsupportedPciSegment),
                Some(legacy) => Ok::<(PciAddress, u8), FingerprintError>((legacy, offset as u8)),
            }
        }),
{
    if offset & 3 != 0 {
        return Err(FingerprintError::UnalignedConfigurationOffset);
    }
    if offset > LEGACY_MAXIMUM_OFFSET {
        return Err(FingerprintError::UnsupportedConfigurationOffset);
    }
    match address.legacy() {
        None => Err(FingerprintError::UnsupportedPciSegment),
        Some(legacy) => Ok((legacy, offset as u8)),
    }
}

/// The answer at a place of the transcript, where that question was asked there.
pub open spec fn word_at(
    log: Seq<ConfigurationEvent>,
    at: int,
    address: PciFunctionAddress,
    offset: u16,
) -> Option<Result<u32, FingerprintError>> {
    if 0 <= at < log.len() {
        match log[at] {
            ConfigurationEvent::Word { address: asked, offset: from, reply } => if asked == address
                && from == offset {
                Some(reply)
            } else {
                None
            },
            ConfigurationEvent::Limit(_) => None,
        }
    } else {
        None
    }
}

pub open spec fn limit_at(log: Seq<ConfigurationEvent>, at: int) -> Option<u16> {
    if 0 <= at < log.len() {
        match log[at] {
            ConfigurationEvent::Limit(limit) => Some(limit),
            ConfigurationEvent::Word { .. } => None,
        }
    } else {
        None
    }
}

#[derive(Clone, Copy, Debug, PartialEq, Eq)]
pub struct BarEvidence {
    pub raw_low: u32,
    pub raw_high: u32,
    pub length: u64,
    pub flags: u8,
}

impl BarEvidence {
    #[verifier::allow_in_spec]
    pub fn empty() -> BarEvidence
        returns
            (BarEvidence { raw_low: 0, raw_high: 0, length: 0, flags: 0 }),
    {
        BarEvidence { raw_low: 0, raw_high: 0, length: 0, flags: 0 }
    }

    #[verifier::allow_in_spec]
    pub fn present(self) -> bool
        returns
            self.flags & BAR_PRESENT != 0,
    {
        self.flags & BAR_PRESENT != 0
    }

    #[verifier::allow_in_spec]
    pub fn is_mmio(self) -> bool
        returns
            self.present() && self.flags & BAR_IO == 0,
    {
        self.present() && self.flags & BAR_IO == 0
    }
}

#[derive(Clone, Copy, Debug, PartialEq, Eq)]
pub struct GpuFingerprint {
    pub segment: u16,
    pub bus: u8,
    pub slot: u8,
    pub function: u8,
    pub vendor_id: u16,
    pub device_id: u16,
    pub subsystem_vendor_id: u16,
    pub subsystem_device_id: u16,
    pub revision: u8,
    pub class_code: u8,
    pub subclass: u8,
    pub programming_interface: u8,
    pub header_type: u8,
    pub interrupt_line: u8,
    pub interrupt_pin: u8,
    pub command: u16,
    pub status: u16,
    pub capability_flags: u32,
    pub topology_flags: u32,
    pub acpi_path_hash: u64,
    pub iommu_group: u32,
    pub upstream_vendor_id: u16,
    pub upstream_device_id: u16,
    pub root_port_depth: u8,
    pub sibling_display_functions: u8,
    pub bars: [BarEvidence; 6],
    pub firmware_framebuffer: FirmwareFramebufferEvidence,
    pub evidence_root: u64,
}

/// The sum of declared lengths below `upto`, clamped to what fits.
pub open spec fn declared_below(bars: Seq<BarEvidence>, upto: int) -> int
    decreases upto,
{
    if upto <= 0 {
        0
    } else {
        declared_below(bars, upto - 1) + bars[upto - 1].length
    }
}

pub open spec fn no_bars() -> Seq<BarEvidence> {
    Seq::new(6, |i: int| BarEvidence::empty())
}

impl GpuFingerprint {
    /// Whether this is the placeholder for an absent function.
    pub open spec fn is_empty(self) -> bool {
        self == (GpuFingerprint {
            segment: 0,
            bus: 0,
            slot: 0,
            function: 0,
            vendor_id: 0xffff,
            device_id: 0xffff,
            subsystem_vendor_id: 0xffff,
            subsystem_device_id: 0xffff,
            revision: 0,
            class_code: 0,
            subclass: 0,
            programming_interface: 0,
            header_type: 0,
            interrupt_line: 0xff,
            interrupt_pin: 0,
            command: 0,
            status: 0,
            capability_flags: 0,
            topology_flags: 0,
            acpi_path_hash: 0,
            iommu_group: u32::MAX,
            upstream_vendor_id: 0xffff,
            upstream_device_id: 0xffff,
            root_port_depth: 0,
            sibling_display_functions: 0,
            bars: self.bars,
            firmware_framebuffer: FirmwareFramebufferEvidence::none(),
            evidence_root: 0,
        }) && self.bars@ == no_bars()
    }

    pub fn empty() -> (fingerprint: GpuFingerprint)
        ensures
            fingerprint.is_empty(),
    {
        let empty = BarEvidence::empty();
        let fingerprint = GpuFingerprint {
            segment: 0,
            bus: 0,
            slot: 0,
            function: 0,
            vendor_id: 0xffff,
            device_id: 0xffff,
            subsystem_vendor_id: 0xffff,
            subsystem_device_id: 0xffff,
            revision: 0,
            class_code: 0,
            subclass: 0,
            programming_interface: 0,
            header_type: 0,
            interrupt_line: 0xff,
            interrupt_pin: 0,
            command: 0,
            status: 0,
            capability_flags: 0,
            topology_flags: 0,
            acpi_path_hash: 0,
            iommu_group: u32::MAX,
            upstream_vendor_id: 0xffff,
            upstream_device_id: 0xffff,
            root_port_depth: 0,
            sibling_display_functions: 0,
            bars: [empty, empty, empty, empty, empty, empty],
            firmware_framebuffer: FirmwareFramebufferEvidence::none(),
            evidence_root: 0,
        };
        assert(fingerprint.bars@ =~= no_bars());
        fingerprint
    }

    #[verifier::allow_in_spec]
    pub fn legacy_address(self) -> Option<PciAddress>
        returns
            self.function_address().legacy(),
    {
        self.function_address().legacy()
    }

    #[verifier::allow_in_spec]
    pub fn function_address(self) -> PciFunctionAddress
        returns
            (PciFunctionAddress {
                segment: self.segment,
                bus: self.bus,
                slot: self.slot,
                function: self.function,
            }),
    {
        PciFunctionAddress {
            segment: self.segment,
            bus: self.bus,
            slot: self.slot,
            function: self.function,
        }
    }

    #[verifier::allow_in_spec]
    pub fn is_display(self) -> bool
        returns
            self.class_code == PCI_CLASS_DISPLAY,
    {
        self.class_code == PCI_CLASS_DISPLAY
    }

    pub open spec fn maps_memory(self) -> bool {
        exists|i: int| 0 <= i < 6 && (#[trigger] self.bars[i]).is_mmio()
    }

    pub fn has_mmio(self) -> (mapped: bool)
        ensures
            mapped == self.maps_memory(),
    {
        let mut index: usize = 0;
        while index < 6
            invariant
                index <= 6,
                forall|i: int| 0 <= i < index ==> !(#[trigger] self.bars[i]).is_mmio(),
            decreases 6 - index,
        {
            if self.bars[index].is_mmio() {
                return true;
            }
            index += 1;
        }
        false
    }

    /// The sum of the declared resource lengths, or the largest value that fits.
    pub open spec fn declared(self) -> u64 {
        if declared_below(self.bars@, 6) > u64::MAX {
            u64::MAX
        } else {
            declared_below(self.bars@, 6) as u64
        }
    }

    pub fn total_declared_resources(self) -> (total: u64)
        ensures
            total == self.declared(),
    {
        let mut total: u64 = 0;
        let mut index: usize = 0;
        while index < 6
            invariant
                index <= 6,
                total == (if declared_below(self.bars@, index as int) > u64::MAX {
                    u64::MAX as int
                } else {
                    declared_below(self.bars@, index as int)
                }),
            decreases 6 - index,
        {
            total = total.saturating_add(self.bars[index].length);
            index += 1;
        }
        total
    }

    #[verifier::allow_in_spec]
    pub fn firmware_display_usable(self) -> bool
        returns
            self.firmware_framebuffer.usable(),
    {
        self.firmware_framebuffer.usable()
    }

    #[verifier::allow_in_spec]
    pub fn iommu_isolated(self) -> bool
        returns
            self.topology_flags & TOPOLOGY_IOMMU_ISOLATED != 0,
    {
        self.topology_flags & TOPOLOGY_IOMMU_ISOLATED != 0
    }

    #[verifier::allow_in_spec]
    pub fn boot_display(self) -> bool
        returns
            self.topology_flags & TOPOLOGY_BOOT_DISPLAY != 0,
    {
        self.topology_flags & TOPOLOGY_BOOT_DISPLAY != 0
    }

    /// The words that the evidence root seals, in order.
    pub open spec fn words(self) -> Seq<u64> {
        seq![
            FINGERPRINT_DOMAIN,
            self.segment as u64,
            (self.bus as u64) | ((self.slot as u64) << 8) | ((self.function as u64) << 16),
            (self.vendor_id as u64) | ((self.device_id as u64) << 16) | ((
            self.subsystem_vendor_id as u64) << 32) | ((self.subsystem_device_id as u64) << 48),
            (self.revision as u64) | ((self.class_code as u64) << 8) | ((self.subclass as u64)
                << 16) | ((self.programming_interface as u64) << 24) | ((self.header_type as u64)
                << 32),
            (self.command as u64) | ((self.status as u64) << 16) | ((self.capability_flags as u64)
                << 32),
            self.topology_flags as u64,
            self.acpi_path_hash,
            (self.iommu_group as u64) | ((self.root_port_depth as u64) << 32) | ((
            self.sibling_display_functions as u64) << 40),
            (self.upstream_vendor_id as u64) | ((self.upstream_device_id as u64) << 16),
        ] + bar_words(self.bars[0]) + bar_words(self.bars[1]) + bar_words(self.bars[2])
            + bar_words(self.bars[3]) + bar_words(self.bars[4]) + bar_words(self.bars[5])
            + framebuffer_words(self.firmware_framebuffer)
    }
}

pub open spec fn bar_words(bar: BarEvidence) -> Seq<u64> {
    seq![(bar.raw_low as u64) | ((bar.raw_high as u64) << 32), bar.length, bar.flags as u64]
}

pub open spec fn framebuffer_words(firmware: FirmwareFramebufferEvidence) -> Seq<u64> {
    let described = seq![
        (firmware.kind.code() as u64) | ((firmware.width as u64) << 8) | ((firmware.height as u64)
            << 32),
        (firmware.pitch as u64) | ((firmware.format as u64) << 32),
        firmware.byte_length,
        crate::seal::flag_word(firmware.retained),
    ];
    match firmware.owner {
        Some(owner) => described.push(
            (owner.segment as u64) | ((owner.bus as u64) << 16) | ((owner.slot as u64) << 24) | ((
            owner.function as u64) << 29),
        ),
        None => described,
    }
}

pub open spec fn fingerprint_root_of(secret: u64, fingerprint: GpuFingerprint) -> u64 {
    crate::seal::avalanche_of(crate::seal::seal_of(secret, fingerprint.words()))
}

fn seal_bar(sealer: Sealer, bar: BarEvidence) -> (next: Sealer)
    ensures
        next.seed() == sealer.seed(),
        next.words() == sealer.words() + bar_words(bar),
{
    sealer.word((bar.raw_low as u64) | ((bar.raw_high as u64) << 32)).word(bar.length).word(
        bar.flags as u64,
    )
}

fn seal_framebuffer(sealer: Sealer, firmware: FirmwareFramebufferEvidence) -> (next: Sealer)
    ensures
        next.seed() == sealer.seed(),
        next.words() == sealer.words() + framebuffer_words(firmware),
{
    let described = sealer.word(
        (firmware.kind.code() as u64) | ((firmware.width as u64) << 8) | ((firmware.height as u64)
            << 32),
    ).word((firmware.pitch as u64) | ((firmware.format as u64) << 32)).word(
        firmware.byte_length,
    ).word(flag(firmware.retained));
    match firmware.owner {
        Some(owner) => described.word(
            (owner.segment as u64) | ((owner.bus as u64) << 16) | ((owner.slot as u64) << 24) | ((
            owner.function as u64) << 29),
        ),
        None => described,
    }
}

pub fn fingerprint_root(secret: u64, fingerprint: &GpuFingerprint) -> (root: u64)
    ensures
        root == fingerprint_root_of(secret, *fingerprint),
{
    let mut sealer = Sealer::new(secret).word(FINGERPRINT_DOMAIN).word(
        fingerprint.segment as u64,
    ).word(
        (fingerprint.bus as u64) | ((fingerprint.slot as u64) << 8) | ((fingerprint.function as u64)
            << 16),
    ).word(
        (fingerprint.vendor_id as u64) | ((fingerprint.device_id as u64) << 16) | ((
        fingerprint.subsystem_vendor_id as u64) << 32) | ((fingerprint.subsystem_device_id as u64)
            << 48),
    ).word(
        (fingerprint.revision as u64) | ((fingerprint.class_code as u64) << 8) | ((
        fingerprint.subclass as u64) << 16) | ((fingerprint.programming_interface as u64) << 24) | ((
        fingerprint.header_type as u64) << 32),
    ).word(
        (fingerprint.command as u64) | ((fingerprint.status as u64) << 16) | ((
        fingerprint.capability_flags as u64) << 32),
    ).word(fingerprint.topology_flags as u64).word(fingerprint.acpi_path_hash).word(
        (fingerprint.iommu_group as u64) | ((fingerprint.root_port_depth as u64) << 32) | ((
        fingerprint.sibling_display_functions as u64) << 40),
    ).word(
        (fingerprint.upstream_vendor_id as u64) | ((fingerprint.upstream_device_id as u64) << 16),
    );
    sealer = seal_bar(sealer, fingerprint.bars[0]);
    sealer = seal_bar(sealer, fingerprint.bars[1]);
    sealer = seal_bar(sealer, fingerprint.bars[2]);
    sealer = seal_bar(sealer, fingerprint.bars[3]);
    sealer = seal_bar(sealer, fingerprint.bars[4]);
    sealer = seal_bar(sealer, fingerprint.bars[5]);
    sealer = seal_framebuffer(sealer, fingerprint.firmware_framebuffer);
    avalanche(sealer.root())
}

#[derive(Clone, Copy, Debug, PartialEq, Eq)]
pub struct FingerprintSummary {
    pub length: usize,
    pub display_functions: usize,
    pub inventory_overflowed: bool,
    pub configuration_faults: u32,
    pub synthetic_firmware_entry: bool,
}

/// Whether a base address register takes the next register as its high half.
#[verifier::allow_in_spec]
pub fn bar_is_wide(index: usize, low: u32) -> bool
    returns
        low & 1 == 0 && (low >> 1) & 0b11 == 0b10 && index < 5,
{
    low & 1 == 0 && (low >> 1) & 0b11 == 0b10 && index < 5
}

/// The flags of a base address register that is present.
#[verifier::allow_in_spec]
pub fn bar_flags(index: usize, low: u32) -> u8
    returns
        (if low & 1 != 0 {
            BAR_PRESENT | BAR_IO
        } else {
            BAR_PRESENT | (if low & (1u32 << 3) != 0 {
                BAR_PREFETCHABLE
            } else {
                0u8
            }) | (if bar_is_wide(index, low) {
                BAR_64BIT
            } else {
                0u8
            })
        }),
{
    if low & 1 != 0 {
        BAR_PRESENT | BAR_IO
    } else {
        let prefetchable: u8 = if low & (1u32 << 3) != 0 {
            BAR_PREFETCHABLE
        } else {
            0
        };
        let wide: u8 = if bar_is_wide(index, low) {
            BAR_64BIT
        } else {
            0
        };
        BAR_PRESENT | prefetchable | wide
    }
}

pub open spec fn bar_offset(index: int) -> u16 {
    (0x10 + 4 * index) as u16
}

/// The registers from `index` on, as a transcript answers for them: an absent
/// register reads as zero or all ones, a wide one consumes its neighbour, and
/// a failed read ends the walk. `None` where the transcript asks otherwise.
pub open spec fn bars_read(
    address: PciFunctionAddress,
    lengths: Seq<u64>,
    index: int,
    bars: Seq<BarEvidence>,
    log: Seq<ConfigurationEvent>,
    at: int,
) -> Option<(Result<Seq<BarEvidence>, FingerprintError>, int)>
    decreases 6 - index,
{
    if index >= 6 {
        Some((Ok(bars), at))
    } else {
        match word_at(log, at, address, bar_offset(index)) {
            None => None,
            Some(Err(_)) => Some((Err(FingerprintError::ConfigurationRead), at + 1)),
            Some(Ok(low)) => if low == 0 || low == u32::MAX {
                bars_read(address, lengths, index + 1, bars, log, at + 1)
            } else if bar_is_wide(index as usize, low) {
                match word_at(log, at + 1, address, bar_offset(index + 1)) {
                    None => None,
                    Some(Err(_)) => Some((Err(FingerprintError::ConfigurationRead), at + 2)),
                    Some(Ok(high)) => bars_read(
                        address,
                        lengths,
                        index + 2,
                        bars.update(index, bar_read(index, low, high, lengths)),
                        log,
                        at + 2,
                    ),
                }
            } else {
                bars_read(
                    address,
                    lengths,
                    index + 1,
                    bars.update(index, bar_read(index, low, 0, lengths)),
                    log,
                    at + 1,
                )
            },
        }
    }
}

pub open spec fn bar_read(index: int, low: u32, high: u32, lengths: Seq<u64>) -> BarEvidence {
    BarEvidence {
        raw_low: low,
        raw_high: high,
        length: lengths[index],
        flags: bar_flags(index as usize, low),
    }
}

pub open spec fn bars_seen(result: Result<[BarEvidence; 6], FingerprintError>) -> Result<
    Seq<BarEvidence>,
    FingerprintError,
> {
    match result {
        Ok(bars) => Ok(bars@),
        Err(error) => Err(error),
    }
}

pub fn read_bar_evidence<C: PciConfigReader>(
    address: PciFunctionAddress,
    config: &mut ConfigurationTrace<C>,
    lengths: [u64; 6],
) -> (result: Result<[BarEvidence; 6], FingerprintError>)
    ensures
        crate::trace::continues(final(config).log(), old(config).log()),
        forall|log: Seq<ConfigurationEvent>| #[trigger]
            crate::trace::continues(log, final(config).log()) ==> bars_read(
                address,
                lengths@,
                0,
                no_bars(),
                log,
                old(config).log().len() as int,
            ) == Some((bars_seen(result), final(config).log().len() as int)),
{
    let empty = BarEvidence::empty();
    let mut bars = [empty, empty, empty, empty, empty, empty];
    let mut index: usize = 0;
    let ghost start = config.log().len() as int;
    assert(bars@ =~= no_bars());
    while index < 6
        invariant
            index <= 6,
            crate::trace::continues(config.log(), old(config).log()),
            start == old(config).log().len(),
            forall|log: Seq<ConfigurationEvent>| #[trigger]
                crate::trace::continues(log, config.log()) ==> bars_read(
                    address,
                    lengths@,
                    0,
                    no_bars(),
                    log,
                    start,
                ) == bars_read(
                    address,
                    lengths@,
                    index as int,
                    bars@,
                    log,
                    config.log().len() as int,
                ),
        decreases 6 - index,
    {
        let ghost head = config.log();
        let ghost known = bars@;
        let ghost from = index as int;
        let offset: u16 = 0x10 + 4 * (index as u16);
        assert(offset == bar_offset(from));
        let low: u32 = match config.read_u32(address, offset) {
            Ok(value) => value,
            Err(_) => {
                assert forall|log: Seq<ConfigurationEvent>| #[trigger] crate::trace::continues(
                    log,
                    config.log(),
                ) implies crate::trace::continues(log, head) && log[head.len() as int] == config.log()[head.len() as int] by {}
                return Err(FingerprintError::ConfigurationRead);
            },
        };
        if low == 0 || low == u32::MAX {
            index += 1;
        } else if bar_is_wide(index, low) {
            let high: u32 = match config.read_u32(address, offset + 4) {
                Ok(value) => value,
                Err(_) => {
                    assert forall|log: Seq<ConfigurationEvent>| #[trigger] crate::trace::continues(
                        log,
                        config.log(),
                    ) implies crate::trace::continues(log, head) && log[head.len() as int] == config.log()[head.len() as int] by {}
                    return Err(FingerprintError::ConfigurationRead);
                },
            };
            bars[index] = BarEvidence {
                raw_low: low,
                raw_high: high,
                length: lengths[index],
                flags: bar_flags(index, low),
            };
            assert(bars@ =~= known.update(from, bar_read(from, low, high, lengths@)));
            index += 2;
        } else {
            bars[index] = BarEvidence {
                raw_low: low,
                raw_high: 0,
                length: lengths[index],
                flags: bar_flags(index, low),
            };
            assert(bars@ =~= known.update(from, bar_read(from, low, 0, lengths@)));
            index += 1;
        }
        assert forall|log: Seq<ConfigurationEvent>| #[trigger]
            crate::trace::continues(log, config.log()) implies bars_read(
            address,
            lengths@,
            0,
            no_bars(),
            log,
            start,
        ) == bars_read(
            address,
            lengths@,
            index as int,
            bars@,
            log,
            config.log().len() as int,
        ) by {
            assert(crate::trace::continues(log, head));
            assert(log[head.len() as int] == config.log()[head.len() as int]);
            if config.log().len() > head.len() + 1 {
                assert(log[head.len() as int + 1] == config.log()[head.len() as int + 1]);
            }
        }
    }
    assert(crate::trace::continues(config.log(), config.log()));
    Ok(bars)
}

/// The capability flag that a conventional capability id stands for.
pub open spec fn capability_flag(id: u8) -> u32 {
    if id == 0x01 {
        CAP_POWER_MANAGEMENT
    } else if id == 0x02 {
        CAP_AGP
    } else if id == 0x05 {
        CAP_MSI
    } else if id == 0x09 {
        CAP_VENDOR_SPECIFIC
    } else if id == 0x10 {
        CAP_PCIE
    } else if id == 0x11 {
        CAP_MSIX
    } else {
        0
    }
}

/// The capability flag that an extended capability id stands for.
pub open spec fn extended_capability_flag(id: u16) -> u32 {
    if id == 0x0001 {
        CAP_ADVANCED_ERROR_REPORTING
    } else if id == 0x000d {
        CAP_ACCESS_CONTROL_SERVICES
    } else if id == 0x000f {
        CAP_ADDRESS_TRANSLATION
    } else if id == 0x0010 {
        CAP_SRIOV
    } else if id == 0x0015 {
        CAP_RESIZABLE_BAR
    } else {
        0
    }
}

/// The conventional capability list from `pointer` on, as a transcript answers
/// for it. A pointer below the header's end is out of range; a pointer that was
/// followed before, or one hop too many, is a cycle.
pub open spec fn capabilities_read(
    address: PciFunctionAddress,
    pointer: u16,
    visited: Set<u16>,
    hops: int,
    flags: u32,
    log: Seq<ConfigurationEvent>,
    at: int,
) -> Option<(Result<u32, FingerprintError>, int)>
    decreases MAXIMUM_CAPABILITY_HOPS - hops,
{
    if pointer == 0 {
        Some((Ok(flags), at))
    } else if pointer < 0x40 || pointer & 3 != 0 {
        Some((Err(FingerprintError::CapabilityOutOfRange), at))
    } else if hops >= MAXIMUM_CAPABILITY_HOPS || visited.contains(pointer) {
        Some((Err(FingerprintError::CapabilityCycle), at))
    } else {
        match word_at(log, at, address, pointer) {
            None => None,
            Some(Err(_)) => Some((Err(FingerprintError::ConfigurationRead), at + 1)),
            Some(Ok(word)) => capabilities_read(
                address,
                (((word >> 8) as u8) & 0xfc) as u16,
                visited.insert(pointer),
                hops + 1,
                flags | capability_flag(word as u8),
                log,
                at + 1,
            ),
        }
    }
}

/// The extended capability list from `pointer` on, as a transcript answers for
/// it: at each hop the reader is asked how far it reaches, then for the header.
/// An empty header ends the list.
pub open spec fn extended_capabilities_read(
    address: PciFunctionAddress,
    pointer: u16,
    visited: Set<u16>,
    hops: int,
    flags: u32,
    log: Seq<ConfigurationEvent>,
    at: int,
) -> Option<(Result<u32, FingerprintError>, int)>
    decreases MAXIMUM_EXTENDED_HOPS - hops,
{
    if pointer == 0 {
        Some((Ok(flags), at))
    } else if pointer < 0x0100 {
        Some((Err(FingerprintError::CapabilityOutOfRange), at))
    } else {
        match limit_at(log, at) {
            None => None,
            Some(limit) => if pointer > limit || pointer & 3 != 0 {
                Some((Err(FingerprintError::CapabilityOutOfRange), at + 1))
            } else if hops >= MAXIMUM_EXTENDED_HOPS || visited.contains(pointer) {
                Some((Err(FingerprintError::CapabilityCycle), at + 1))
            } else {
                match word_at(log, at + 1, address, pointer) {
                    None => None,
                    Some(Err(_)) => Some((Err(FingerprintError::ConfigurationRead), at + 2)),
                    Some(Ok(header)) => if header == 0 || header == u32::MAX {
                        Some((Ok(flags), at + 2))
                    } else {
                        extended_capabilities_read(
                            address,
                            ((header >> 20) as u16) & 0x0ffc,
                            visited.insert(pointer),
                            hops + 1,
                            flags | extended_capability_flag(header as u16),
                            log,
                            at + 2,
                        )
                    },
                }
            },
        }
    }
}

/// The capability flags of a function: the conventional list where the status
/// register announces one, then the extended list where it can be reached.
pub open spec fn capability_flags_read(
    address: PciFunctionAddress,
    status: u16,
    log: Seq<ConfigurationEvent>,
    at: int,
) -> Option<(Result<u32, FingerprintError>, int)> {
    let listed = if status & STATUS_CAPABILITIES_LIST != 0 {
        match word_at(log, at, address, 0x34) {
            None => None,
            Some(Err(_)) => Some((Err(FingerprintError::ConfigurationRead), at + 1)),
            Some(Ok(header)) => capabilities_read(
                address,
                ((header as u8) & 0xfc) as u16,
                Set::empty(),
                0,
                0,
                log,
                at + 1,
            ),
        }
    } else {
        Some((Ok(0u32), at))
    };
    match listed {
        None => None,
        Some((Err(error), end)) => Some((Err(error), end)),
        Some((Ok(flags), end)) => match limit_at(log, end) {
            None => None,
            Some(limit) => if limit < 0x0100 {
                Some((Ok(flags), end + 1))
            } else {
                match extended_capabilities_read(
                    address,
                    0x0100,
                    Set::empty(),
                    0,
                    0,
                    log,
                    end + 1,
                ) {
                    None => None,
                    Some((Err(error), last)) => Some((Err(error), last)),
                    Some((Ok(extended), last)) => Some((Ok(flags | extended), last)),
                }
            },
        },
    }
}

proof fn lemma_masked_pointers()
    ensures
        forall|byte: u8| #[trigger] (byte & 0xfc) <= 0xfc && (byte & 0xfc) % 4 == 0,
        forall|word: u16| #[trigger] (word & 0x0ffc) <= 0x0ffc && (word & 0x0ffc) % 4 == 0,
        forall|pointer: u16| pointer % 4 == 0 <==> #[trigger] (pointer & 3) == 0,
{
    assert forall|byte: u8| #[trigger] (byte & 0xfc) <= 0xfc && (byte & 0xfc) % 4 == 0 by {
        crate::bits::lemma_byte(byte);
    }
    assert forall|word: u16| #[trigger] (word & 0x0ffc) <= 0x0ffc && (word & 0x0ffc) % 4 == 0 by {
        crate::bits::lemma_word16(word);
    }
    assert forall|pointer: u16| pointer % 4 == 0 <==> #[trigger] (pointer & 3) == 0 by {
        crate::bits::lemma_word16(pointer);
    }
}

#[verifier::loop_isolation(false)]
fn read_listed_capabilities<C: PciConfigReader>(
    address: PciFunctionAddress,
    first: u16,
    config: &mut ConfigurationTrace<C>,
) -> (result: Result<u32, FingerprintError>)
    requires
        first <= 0xfc,
        first % 4 == 0,
    ensures
        crate::trace::continues(final(config).log(), old(config).log()),
        forall|log: Seq<ConfigurationEvent>| #[trigger]
            crate::trace::continues(log, final(config).log()) ==> capabilities_read(
                address,
                first,
                Set::empty(),
                0,
                0,
                log,
                old(config).log().len() as int,
            ) == Some((result, final(config).log().len() as int)),
{
    let mut pointer: u16 = first;
    let mut visited = [false; 64];
    let mut hops: usize = 0;
    let mut flags: u32 = 0;
    let ghost mut seen = Set::<u16>::empty();
    let ghost start = config.log().len() as int;
    proof {
        lemma_masked_pointers();
    }
    while pointer != 0
        invariant
            pointer <= 0xfc,
            pointer % 4 == 0,
            hops <= MAXIMUM_CAPABILITY_HOPS,
            forall|d: u16| d < 64 ==> visited@[d as int] == seen.contains((4 * d) as u16),
            crate::trace::continues(config.log(), old(config).log()),
            start == old(config).log().len(),
            forall|log: Seq<ConfigurationEvent>| #[trigger]
                crate::trace::continues(log, config.log()) ==> capabilities_read(
                    address,
                    first,
                    Set::empty(),
                    0,
                    0,
                    log,
                    start,
                ) == capabilities_read(
                    address,
                    pointer,
                    seen,
                    hops as int,
                    flags,
                    log,
                    config.log().len() as int,
                ),
        decreases MAXIMUM_CAPABILITY_HOPS - hops,
    {
        let ghost head = config.log();
        assert(crate::trace::continues(head, head));
        if pointer < 0x40 || pointer & 3 != 0 {
            return Err(FingerprintError::CapabilityOutOfRange);
        }
        if hops >= MAXIMUM_CAPABILITY_HOPS {
            return Err(FingerprintError::CapabilityCycle);
        }
        let dword: u16 = pointer / 4;
        assert(4 * dword == pointer);
        if visited[dword as usize] {
            return Err(FingerprintError::CapabilityCycle);
        }
        visited[dword as usize] = true;
        let capability: u32 = match config.read_u32(address, pointer) {
            Ok(value) => value,
            Err(_) => {
                assert forall|log: Seq<ConfigurationEvent>| #[trigger] crate::trace::continues(
                    log,
                    config.log(),
                ) implies crate::trace::continues(log, head) && log[head.len() as int] == config.log()[head.len() as int] by {}
                return Err(FingerprintError::ConfigurationRead);
            },
        };
        let added: u32 = match capability as u8 {
            0x01 => CAP_POWER_MANAGEMENT,
            0x02 => CAP_AGP,
            0x05 => CAP_MSI,
            0x09 => CAP_VENDOR_SPECIFIC,
            0x10 => CAP_PCIE,
            0x11 => CAP_MSIX,
            _ => 0,
        };
        assert(added == capability_flag(capability as u8));
        let ghost followed = pointer;
        let ghost before = seen;
        flags = flags | added;
        pointer = (((capability >> 8) as u8) & 0xfc) as u16;
        hops += 1;
        proof {
            seen = seen.insert(followed);
            assert forall|log: Seq<ConfigurationEvent>| #[trigger]
                crate::trace::continues(log, config.log()) implies capabilities_read(
                address,
                first,
                Set::empty(),
                0,
                0,
                log,
                start,
            ) == capabilities_read(
                address,
                pointer,
                seen,
                hops as int,
                flags,
                log,
                config.log().len() as int,
            ) by {
                assert(crate::trace::continues(log, head));
                assert(log[head.len() as int] == config.log()[head.len() as int]);
            }
        }
    }
    assert(crate::trace::continues(config.log(), config.log()));
    Ok(flags)
}

#[verifier::loop_isolation(false)]
pub fn read_extended_capability_flags<C: PciConfigReader>(
    address: PciFunctionAddress,
    config: &mut ConfigurationTrace<C>,
) -> (result: Result<u32, FingerprintError>)
    ensures
        crate::trace::continues(final(config).log(), old(config).log()),
        forall|log: Seq<ConfigurationEvent>| #[trigger]
            crate::trace::continues(log, final(config).log()) ==> extended_capabilities_read(
                address,
                0x0100,
                Set::empty(),
                0,
                0,
                log,
                old(config).log().len() as int,
            ) == Some((result, final(config).log().len() as int)),
{
    let mut pointer: u16 = 0x0100;
    let mut visited = [false; 1024];
    let mut hops: usize = 0;
    let mut flags: u32 = 0;
    let ghost mut seen = Set::<u16>::empty();
    let ghost start = config.log().len() as int;
    proof {
        lemma_masked_pointers();
    }
    while pointer != 0
        invariant
            pointer <= 0x0ffc,
            pointer % 4 == 0,
            hops <= MAXIMUM_EXTENDED_HOPS,
            forall|d: u16| d < 1024 ==> visited@[d as int] == seen.contains((4 * d) as u16),
            crate::trace::continues(config.log(), old(config).log()),
            start == old(config).log().len(),
            forall|log: Seq<ConfigurationEvent>| #[trigger]
                crate::trace::continues(log, config.log()) ==> extended_capabilities_read(
                    address,
                    0x0100,
                    Set::empty(),
                    0,
                    0,
                    log,
                    start,
                ) == extended_capabilities_read(
                    address,
                    pointer,
                    seen,
                    hops as int,
                    flags,
                    log,
                    config.log().len() as int,
                ),
        decreases MAXIMUM_EXTENDED_HOPS - hops,
    {
        let ghost head = config.log();
        assert(crate::trace::continues(head, head));
        if pointer < 0x0100 {
            return Err(FingerprintError::CapabilityOutOfRange);
        }
        let limit: u16 = config.maximum_offset();
        let ghost reached = config.log();
        assert forall|log: Seq<ConfigurationEvent>| #[trigger] crate::trace::continues(
            log,
            reached,
        ) implies crate::trace::continues(log, head) && limit_at(log, head.len() as int) == Some(
            limit,
        ) by {
            assert(log[head.len() as int] == reached[head.len() as int]);
        }
        if pointer > limit || pointer & 3 != 0 {
            return Err(FingerprintError::CapabilityOutOfRange);
        }
        if hops >= MAXIMUM_EXTENDED_HOPS {
            return Err(FingerprintError::CapabilityCycle);
        }
        let dword: u16 = pointer / 4;
        assert(4 * dword == pointer);
        if visited[dword as usize] {
            return Err(FingerprintError::CapabilityCycle);
        }
        visited[dword as usize] = true;
        let header: u32 = match config.read_u32(address, pointer) {
            Ok(value) => value,
            Err(_) => {
                assert forall|log: Seq<ConfigurationEvent>| #[trigger] crate::trace::continues(
                    log,
                    config.log(),
                ) implies crate::trace::continues(log, reached) && log[reached.len() as int]
                    == config.log()[reached.len() as int] by {}
                return Err(FingerprintError::ConfigurationRead);
            },
        };
        if header == 0 || header == u32::MAX {
            assert forall|log: Seq<ConfigurationEvent>| #[trigger] crate::trace::continues(
                log,
                config.log(),
            ) implies crate::trace::continues(log, reached) && log[reached.len() as int]
                    == config.log()[reached.len() as int] by {}
            return Ok(flags);
        }
        let added: u32 = match header as u16 {
            0x0001 => CAP_ADVANCED_ERROR_REPORTING,
            0x000d => CAP_ACCESS_CONTROL_SERVICES,
            0x000f => CAP_ADDRESS_TRANSLATION,
            0x0010 => CAP_SRIOV,
            0x0015 => CAP_RESIZABLE_BAR,
            _ => 0,
        };
        assert(added == extended_capability_flag(header as u16));
        let ghost followed = pointer;
        flags = flags | added;
        pointer = ((header >> 20) as u16) & 0x0ffc;
        hops += 1;
        proof {
            seen = seen.insert(followed);
            assert forall|log: Seq<ConfigurationEvent>| #[trigger]
                crate::trace::continues(log, config.log()) implies extended_capabilities_read(
                address,
                0x0100,
                Set::empty(),
                0,
                0,
                log,
                start,
            ) == extended_capabilities_read(
                address,
                pointer,
                seen,
                hops as int,
                flags,
                log,
                config.log().len() as int,
            ) by {
                assert(crate::trace::continues(log, reached));
                assert(log[reached.len() as int] == config.log()[reached.len() as int]);
            }
        }
    }
    assert(crate::trace::continues(config.log(), config.log()));
    Ok(flags)
}

pub fn read_capability_flags<C: PciConfigReader>(
    address: PciFunctionAddress,
    status: u16,
    config: &mut ConfigurationTrace<C>,
) -> (result: Result<u32, FingerprintError>)
    ensures
        crate::trace::continues(final(config).log(), old(config).log()),
        forall|log: Seq<ConfigurationEvent>| #[trigger]
            crate::trace::continues(log, final(config).log()) ==> capability_flags_read(
                address,
                status,
                log,
                old(config).log().len() as int,
            ) == Some((result, final(config).log().len() as int)),
{
    let ghost start = config.log();
    let mut flags: u32 = 0;
    let ghost mut listed = start;
    if status & STATUS_CAPABILITIES_LIST != 0 {
        let reply = config.read_u32(address, 0x34);
        proof {
            listed = config.log();
        }
        let header: u32 = match reply {
            Ok(value) => value,
            Err(_) => {
                assert forall|log: Seq<ConfigurationEvent>| #[trigger]
                    crate::trace::continues(log, config.log()) implies log[start.len() as int]
                    == config.log()[start.len() as int] by {}
                return Err(FingerprintError::ConfigurationRead);
            },
        };
        proof {
            lemma_masked_pointers();
        }
        let first: u16 = ((header as u8) & 0xfc) as u16;
        let walked = read_listed_capabilities(address, first, config);
        match walked {
            Ok(found) => {
                flags = found;
            },
            Err(error) => {
                assert forall|log: Seq<ConfigurationEvent>| #[trigger]
                    crate::trace::continues(log, config.log()) implies log[start.len() as int]
                    == listed[start.len() as int] by {
                    assert(crate::trace::continues(log, listed));
                }
                return Err(error);
            },
        }
    }
    let ghost conventional = config.log();
    let limit: u16 = config.maximum_offset();
    let ghost limited = config.log();
    let extended = if limit >= 0x0100 {
        read_extended_capability_flags(address, config)
    } else {
        Ok(0)
    };
    proof {
        assert forall|log: Seq<ConfigurationEvent>| #[trigger] crate::trace::continues(
            log,
            config.log(),
        ) implies {
            &&& crate::trace::continues(log, conventional)
            &&& log[conventional.len() as int] == limited[conventional.len() as int]
            &&& listed.len() > start.len() ==> log[start.len() as int] == listed[start.len() as int]
        } by {
            assert(crate::trace::continues(log, limited));
            assert(crate::trace::continues(log, listed));
        }
        assert(flags | 0 == flags) by {
            crate::bits::lemma_word32(flags);
        }
    }
    match extended {
        Ok(more) => Ok(flags | more),
        Err(error) => Err(error),
    }
}

/// What the configuration space of one function said.
pub struct DeviceWords {
    pub command_status: u32,
    pub subsystem: u32,
    pub bars: Seq<BarEvidence>,
    pub capability_flags: u32,
    pub incomplete: bool,
}

/// The configuration words of one function, as a transcript answers for them.
/// A part that cannot be read keeps its neutral value and marks the reading
/// incomplete.
pub open spec fn device_read(
    address: PciFunctionAddress,
    lengths: Seq<u64>,
    log: Seq<ConfigurationEvent>,
    at: int,
) -> Option<(DeviceWords, int)> {
    match (word_at(log, at, address, 0x04), word_at(log, at + 1, address, 0x2c)) {
        (Some(command), Some(subsystem)) => match bars_read(
            address,
            lengths,
            0,
            no_bars(),
            log,
            at + 2,
        ) {
            None => None,
            Some((bars, middle)) => {
                let command_status = if command is Ok {
                    command->Ok_0
                } else {
                    0
                };
                match capability_flags_read(
                    address,
                    (command_status >> 16) as u16,
                    log,
                    middle,
                ) {
                    None => None,
                    Some((flags, end)) => Some(
                        (
                            DeviceWords {
                                command_status,
                                subsystem: if subsystem is Ok {
                                    subsystem->Ok_0
                                } else {
                                    u32::MAX
                                },
                                bars: if bars is Ok {
                                    bars->Ok_0
                                } else {
                                    no_bars()
                                },
                                capability_flags: if flags is Ok {
                                    flags->Ok_0
                                } else {
                                    0
                                },
                                incomplete: command is Err || subsystem is Err || bars is Err
                                    || flags is Err,
                            },
                            end,
                        ),
                    ),
                }
            },
        },
        _ => None,
    }
}

/// The topology flags of a fingerprint: what the platform says, and what the
/// measurement itself found.
#[verifier::allow_in_spec]
pub fn measured_topology_flags(
    reported: u32,
    framebuffer_usable: bool,
    overflowed: bool,
    incomplete: bool,
) -> u32
    returns
        (reported | (if framebuffer_usable {
            TOPOLOGY_FIRMWARE_FRAMEBUFFER
        } else {
            0u32
        }) | (if overflowed {
            TOPOLOGY_INVENTORY_OVERFLOW
        } else {
            0u32
        }) | (if incomplete {
            TOPOLOGY_CONFIG_INCOMPLETE
        } else {
            0u32
        })),
{
    let framebuffer: u32 = if framebuffer_usable {
        TOPOLOGY_FIRMWARE_FRAMEBUFFER
    } else {
        0
    };
    let overflow: u32 = if overflowed {
        TOPOLOGY_INVENTORY_OVERFLOW
    } else {
        0
    };
    let partial: u32 = if incomplete {
        TOPOLOGY_CONFIG_INCOMPLETE
    } else {
        0
    };
    reported | framebuffer | overflow | partial
}

/// The fingerprint of a function before it is sealed.
pub open spec fn unsealed_fingerprint(
    function: PciFunctionRecord,
    topology: TopologyEvidence,
    words: DeviceWords,
    bars: [BarEvidence; 6],
    overflowed: bool,
) -> GpuFingerprint {
    GpuFingerprint {
        segment: function.address.segment,
        bus: function.address.bus,
        slot: function.address.slot,
        function: function.address.function,
        vendor_id: function.vendor_id,
        device_id: function.device_id,
        subsystem_vendor_id: words.subsystem as u16,
        subsystem_device_id: (words.subsystem >> 16) as u16,
        revision: function.revision,
        class_code: function.class_code,
        subclass: function.subclass,
        programming_interface: function.programming_interface,
        header_type: function.header_type,
        interrupt_line: function.interrupt_line,
        interrupt_pin: function.interrupt_pin,
        command: words.command_status as u16,
        status: (words.command_status >> 16) as u16,
        capability_flags: words.capability_flags,
        topology_flags: measured_topology_flags(
            topology.topology_flags,
            topology.firmware_framebuffer.usable(),
            overflowed,
            words.incomplete,
        ),
        acpi_path_hash: topology.acpi_path_hash,
        iommu_group: topology.iommu_group,
        upstream_vendor_id: topology.upstream_vendor_id,
        upstream_device_id: topology.upstream_device_id,
        root_port_depth: topology.root_port_depth,
        sibling_display_functions: topology.sibling_display_functions,
        bars,
        firmware_framebuffer: topology.firmware_framebuffer,
        evidence_root: 0,
    }
}

/// A fingerprint with its root set to the seal over everything else.
pub open spec fn sealed_fingerprint(secret: u64, fingerprint: GpuFingerprint) -> GpuFingerprint {
    GpuFingerprint { evidence_root: fingerprint_root_of(secret, fingerprint), ..fingerprint }
}

/// Whether a fingerprint is the sealed record of a function and its words.
pub open spec fn fingerprints(
    fingerprint: GpuFingerprint,
    function: PciFunctionRecord,
    topology: TopologyEvidence,
    words: DeviceWords,
    overflowed: bool,
    secret: u64,
) -> bool {
    &&& fingerprint.bars@ == words.bars
    &&& fingerprint == sealed_fingerprint(
        secret,
        unsealed_fingerprint(function, topology, words, fingerprint.bars, overflowed),
    )
}

/// Whether the platform places the function on the segment where it was found;
/// a platform that reports segment zero says nothing.
#[verifier::allow_in_spec]
pub fn segment_agrees(function: PciFunctionRecord, topology: TopologyEvidence) -> bool
    returns
        topology.segment == 0 || topology.segment == function.address.segment,
{
    topology.segment == 0 || topology.segment == function.address.segment
}

/// Builds and seals the fingerprint that a function, its topology and its
/// configuration words amount to.
pub fn assemble_fingerprint(
    function: &PciFunctionRecord,
    topology: TopologyEvidence,
    command_status: u32,
    subsystem: u32,
    bars: [BarEvidence; 6],
    capability_flags: u32,
    configuration_incomplete: bool,
    inventory_overflowed: bool,
    secret: u64,
) -> (fingerprint: GpuFingerprint)
    ensures
        fingerprints(
            fingerprint,
            *function,
            topology,
            (DeviceWords {
                command_status,
                subsystem,
                bars: bars@,
                capability_flags,
                incomplete: configuration_incomplete,
            }),
            inventory_overflowed,
            secret,
        ),
{
    let mut fingerprint = GpuFingerprint {
        segment: function.address.segment,
        bus: function.address.bus,
        slot: function.address.slot,
        function: function.address.function,
        vendor_id: function.vendor_id,
        device_id: function.device_id,
        subsystem_vendor_id: subsystem as u16,
        subsystem_device_id: (subsystem >> 16) as u16,
        revision: function.revision,
        class_code: function.class_code,
        subclass: function.subclass,
        programming_interface: function.programming_interface,
        header_type: function.header_type,
        interrupt_line: function.interrupt_line,
        interrupt_pin: function.interrupt_pin,
        command: command_status as u16,
        status: (command_status >> 16) as u16,
        capability_flags,
        topology_flags: measured_topology_flags(
            topology.topology_flags,
            topology.firmware_framebuffer.usable(),
            inventory_overflowed,
            configuration_incomplete,
        ),
        acpi_path_hash: topology.acpi_path_hash,
        iommu_group: topology.iommu_group,
        upstream_vendor_id: topology.upstream_vendor_id,
        upstream_device_id: topology.upstream_device_id,
        root_port_depth: topology.root_port_depth,
        sibling_display_functions: topology.sibling_display_functions,
        bars,
        firmware_framebuffer: topology.firmware_framebuffer,
        evidence_root: 0,
    };
    fingerprint.evidence_root = fingerprint_root(secret, &fingerprint);
    fingerprint
}

/// Whether a fingerprint is that of a function whose words a stretch of the
/// transcript holds.
pub open spec fn measured_fingerprint(
    fingerprint: GpuFingerprint,
    function: PciFunctionRecord,
    topology: TopologyEvidence,
    overflowed: bool,
    secret: u64,
    log: Seq<ConfigurationEvent>,
    from: int,
    to: int,
) -> bool {
    match device_read(function.address, topology.resource_lengths@, log, from) {
        Some((words, end)) => end == to && fingerprints(
            fingerprint,
            function,
            topology,
            words,
            overflowed,
            secret,
        ),
        None => false,
    }
}

pub fn fingerprint_device<C: PciConfigReader>(
    function: &PciFunctionRecord,
    config: &mut ConfigurationTrace<C>,
    topology: TopologyEvidence,
    inventory_overflowed: bool,
    secret: u64,
) -> (result: Result<GpuFingerprint, FingerprintError>)
    ensures
        crate::trace::continues(final(config).log(), old(config).log()),
        !segment_agrees(*function, topology) ==> {
            &&& result == Err::<GpuFingerprint, _>(FingerprintError::InvalidHeader)
            &&& final(config).log() == old(config).log()
        },
        segment_agrees(*function, topology) ==> (result matches Ok(fingerprint) && forall|
            log: Seq<ConfigurationEvent>,
        | #[trigger]
            crate::trace::continues(log, final(config).log()) ==> measured_fingerprint(
                fingerprint,
                *function,
                topology,
                inventory_overflowed,
                secret,
                log,
                old(config).log().len() as int,
                final(config).log().len() as int,
            )),
{
    if !segment_agrees(*function, topology) {
        return Err(FingerprintError::InvalidHeader);
    }
    let address = function.address;
    let ghost start = config.log();
    let mut incomplete = false;
    let command_status: u32 = match config.read_u32(address, 0x04) {
        Ok(value) => value,
        Err(_) => {
            incomplete = true;
            0
        },
    };
    let subsystem: u32 = match config.read_u32(address, 0x2c) {
        Ok(value) => value,
        Err(_) => {
            incomplete = true;
            u32::MAX
        },
    };
    let ghost identified = config.log();
    let empty = BarEvidence::empty();
    let bars = match read_bar_evidence(address, config, topology.resource_lengths) {
        Ok(read) => read,
        Err(_) => {
            incomplete = true;
            let none = [empty, empty, empty, empty, empty, empty];
            assert(none@ =~= no_bars());
            none
        },
    };
    let ghost mapped = config.log();
    let capability_flags: u32 = match read_capability_flags(
        address,
        (command_status >> 16) as u16,
        config,
    ) {
        Ok(flags) => flags,
        Err(_) => {
            incomplete = true;
            0
        },
    };
    proof {
        assert forall|log: Seq<ConfigurationEvent>| #[trigger] crate::trace::continues(
            log,
            config.log(),
        ) implies {
            &&& crate::trace::continues(log, mapped)
            &&& log[start.len() as int] == identified[start.len() as int]
            &&& log[start.len() as int + 1] == identified[start.len() as int + 1]
        } by {
            assert(crate::trace::continues(log, identified));
        }
    }
    Ok(
        assemble_fingerprint(
            function,
            topology,
            command_status,
            subsystem,
            bars,
            capability_flags,
            incomplete,
            inventory_overflowed,
            secret,
        ),
    )
}

/// The place of the framebuffer's owner among the functions.
pub open spec fn owner_place(
    functions: Seq<PciFunctionRecord>,
    firmware: FirmwareFramebufferEvidence,
) -> Option<int> {
    match firmware.owner {
        None => None,
        Some(owner) => if super::inventory::lists_address(functions, owner) {
            Some(first_place(functions, owner, 0))
        } else {
            None
        },
    }
}

pub open spec fn first_place(
    functions: Seq<PciFunctionRecord>,
    address: PciFunctionAddress,
    from: int,
) -> int
    decreases functions.len() - from,
{
    if from >= functions.len() || functions[from].address == address {
        from
    } else {
        first_place(functions, address, from + 1)
    }
}

/// The functions below `upto` in the order in which they are measured: the
/// owner of the framebuffer first, the others as listed while room is left.
pub open spec fn measuring_order(owner: Option<int>, upto: int, capacity: int) -> Seq<int>
    decreases upto,
{
    if upto <= 0 {
        match owner {
            Some(place) => seq![place],
            None => Seq::empty(),
        }
    } else {
        let earlier = measuring_order(owner, upto - 1, capacity);
        if owner == Some(upto - 1) || earlier.len() >= capacity {
            earlier
        } else {
            earlier.push(upto - 1)
        }
    }
}

/// The owner's fingerprint takes over the framebuffer when it has none.
pub open spec fn adopting_framebuffer(
    secret: u64,
    fingerprint: GpuFingerprint,
    firmware: FirmwareFramebufferEvidence,
) -> GpuFingerprint {
    if firmware.usable() && !fingerprint.firmware_display_usable() {
        sealed_fingerprint(
            secret,
            GpuFingerprint {
                firmware_framebuffer: firmware,
                topology_flags: fingerprint.topology_flags | TOPOLOGY_FIRMWARE_FRAMEBUFFER,
                ..fingerprint
            },
        )
    } else {
        fingerprint
    }
}

/// The stand-in for a framebuffer that no listed function owns.
pub open spec fn is_synthetic(
    fingerprint: GpuFingerprint,
    secret: u64,
    firmware: FirmwareFramebufferEvidence,
    incomplete: bool,
) -> bool {
    exists|blank: GpuFingerprint| #[trigger]
        blank.is_empty() && fingerprint == sealed_fingerprint(
            secret,
            GpuFingerprint {
                firmware_framebuffer: firmware,
                topology_flags: synthetic_topology_flags(incomplete),
                ..blank
            },
        )
}

#[verifier::allow_in_spec]
pub fn synthetic_topology_flags(incomplete: bool) -> u32
    returns
        (if incomplete {
            TOPOLOGY_FIRMWARE_FRAMEBUFFER | TOPOLOGY_BOOT_DISPLAY | TOPOLOGY_INVENTORY_OVERFLOW
        } else {
            TOPOLOGY_FIRMWARE_FRAMEBUFFER | TOPOLOGY_BOOT_DISPLAY
        }),
{
    if incomplete {
        TOPOLOGY_FIRMWARE_FRAMEBUFFER | TOPOLOGY_BOOT_DISPLAY | TOPOLOGY_INVENTORY_OVERFLOW
    } else {
        TOPOLOGY_FIRMWARE_FRAMEBUFFER | TOPOLOGY_BOOT_DISPLAY
    }
}

/// How many entries an inventory of `functions` leaves room for.
pub open spec fn function_capacity(
    functions: Seq<PciFunctionRecord>,
    firmware: FirmwareFramebufferEvidence,
    room: int,
) -> int {
    if reserves_synthetic(functions, firmware) {
        room - 1
    } else {
        room
    }
}

pub open spec fn reserves_synthetic(
    functions: Seq<PciFunctionRecord>,
    firmware: FirmwareFramebufferEvidence,
) -> bool {
    firmware.usable() && owner_place(functions, firmware) is None
}

/// Whether the entry at `k` is the fingerprint of the k-th measured function,
/// taken from the k-th stretch of the transcript.
pub open spec fn entry_measures<T: TopologyEvidenceProvider>(
    entry: GpuFingerprint,
    measured: GpuFingerprint,
    k: int,
    functions: Seq<PciFunctionRecord>,
    topology: &T,
    incomplete: bool,
    secret: u64,
    order: Seq<int>,
    cuts: Seq<int>,
    log: Seq<ConfigurationEvent>,
) -> bool {
    let function = functions[order[k]];
    let firmware = topology.boot_framebuffer();
    &&& measured_fingerprint(
        measured,
        function,
        topology.topology_of(function),
        incomplete,
        secret,
        log,
        cuts[k],
        cuts[k + 1],
    )
    &&& entry == (if k == 0 && owner_place(functions, firmware) is Some {
        adopting_framebuffer(secret, measured, firmware)
    } else {
        measured
    })
}

/// Whether the first entries are the fingerprints of the measured functions,
/// each from its own stretch of the transcript.
pub open spec fn entries_measure<T: TopologyEvidenceProvider>(
    entries: Seq<GpuFingerprint>,
    measured: Seq<GpuFingerprint>,
    functions: Seq<PciFunctionRecord>,
    topology: &T,
    incomplete: bool,
    secret: u64,
    order: Seq<int>,
    cuts: Seq<int>,
    log: Seq<ConfigurationEvent>,
    start: int,
    end: int,
    count: int,
) -> bool {
    &&& cuts.len() == count + 1
    &&& measured.len() == count
    &&& cuts[0] == start
    &&& cuts[count] == end
    &&& forall|k: int|
        #![trigger entries[k]]
        0 <= k < count ==> entry_measures(
            entries[k],
            measured[k],
            k,
            functions,
            topology,
            incomplete,
            secret,
            order,
            cuts,
            log,
        )
}

/// The order in which an inventory is measured into `room` entries.
pub open spec fn inventory_order(
    functions: Seq<PciFunctionRecord>,
    firmware: FirmwareFramebufferEvidence,
    room: int,
) -> Seq<int> {
    measuring_order(
        owner_place(functions, firmware),
        functions.len() as int,
        function_capacity(functions, firmware, room),
    )
}

/// Whether the platform places some measured function on a segment where it
/// was not found.
pub open spec fn misplaces_a_function<T: TopologyEvidenceProvider>(
    functions: Seq<PciFunctionRecord>,
    topology: &T,
    order: Seq<int>,
) -> bool {
    exists|k: int|
        0 <= k < order.len() && !segment_agrees(
            functions[#[trigger] order[k]],
            topology.topology_of(functions[order[k]]),
        )
}

/// Whether the function at a place of the order is the first that the platform places on
/// a segment where it was not found.
pub open spec fn first_misplaced<T: TopologyEvidenceProvider>(
    functions: Seq<PciFunctionRecord>,
    topology: &T,
    order: Seq<int>,
    place: int,
) -> bool {
    &&& 0 <= place < order.len()
    &&& !segment_agrees(functions[order[place]], topology.topology_of(functions[order[place]]))
    &&& forall|k: int|
        0 <= k < place ==> segment_agrees(
            functions[#[trigger] order[k]],
            topology.topology_of(functions[order[k]]),
        )
}

/// Whether an inventory dropped functions, or has more than fit into `room`.
pub open spec fn discovery_incomplete(
    model: InventoryModel,
    firmware: FirmwareFramebufferEvidence,
    room: int,
) -> bool {
    model.overflowed || model.functions.len() > function_capacity(
        model.functions,
        firmware,
        room,
    )
}

pub open spec fn inventory_summary(
    model: InventoryModel,
    firmware: FirmwareFramebufferEvidence,
    room: int,
) -> FingerprintSummary {
    let synthetic = reserves_synthetic(model.functions, firmware);
    FingerprintSummary {
        length: (inventory_order(model.functions, firmware, room).len() + if synthetic {
            1nat
        } else {
            0nat
        }) as usize,
        display_functions: model.functions.len() as usize,
        inventory_overflowed: discovery_incomplete(model, firmware, room),
        configuration_faults: model.faults,
        synthetic_firmware_entry: synthetic,
    }
}

/// Whether the entries are the fingerprints of the measured functions, then
/// the stand-in where one is owed, and the rest is untouched.
pub open spec fn inventory_measured<T: TopologyEvidenceProvider>(
    model: InventoryModel,
    topology: &T,
    secret: u64,
    before: Seq<GpuFingerprint>,
    after: Seq<GpuFingerprint>,
    start: Seq<ConfigurationEvent>,
    log: Seq<ConfigurationEvent>,
) -> bool {
    let room = before.len() as int;
    let firmware = topology.boot_framebuffer();
    let order = inventory_order(model.functions, firmware, room);
    let incomplete = discovery_incomplete(model, firmware, room);
    let summary = inventory_summary(model, firmware, room);
    &&& exists|measured: Seq<GpuFingerprint>, cuts: Seq<int>| #[trigger]
        entries_measure(
            after,
            measured,
            model.functions,
            topology,
            incomplete,
            secret,
            order,
            cuts,
            log,
            start.len() as int,
            log.len() as int,
            order.len() as int,
        )
    &&& summary.synthetic_firmware_entry ==> is_synthetic(
        after[order.len() as int],
        secret,
        firmware,
        incomplete,
    )
    &&& forall|i: int| summary.length <= i < room ==> after[i] == before[i]
}

/// Whether measuring stopped at a misplaced function: the entries before it are the
/// fingerprints of the functions before it, the rest is untouched, and of the misplaced
/// function nothing was read.
pub open spec fn inventory_stopped<T: TopologyEvidenceProvider>(
    model: InventoryModel,
    topology: &T,
    secret: u64,
    before: Seq<GpuFingerprint>,
    after: Seq<GpuFingerprint>,
    start: Seq<ConfigurationEvent>,
    log: Seq<ConfigurationEvent>,
) -> bool {
    let room = before.len() as int;
    let firmware = topology.boot_framebuffer();
    let order = inventory_order(model.functions, firmware, room);
    exists|measured: Seq<GpuFingerprint>, cuts: Seq<int>, place: int| #[trigger]
        entries_measure(
            after,
            measured,
            model.functions,
            topology,
            discovery_incomplete(model, firmware, room),
            secret,
            order,
            cuts,
            log,
            start.len() as int,
            log.len() as int,
            place,
        ) && first_misplaced(model.functions, topology, order, place) && forall|i: int|
            place <= i < room ==> #[trigger] after[i] == before[i]
}

/// What fingerprinting an inventory comes to: no room at all and a function on
/// the wrong segment are refused; otherwise everything that fits is measured.
#[verifier::opaque]
pub open spec fn inventory_outcome<T: TopologyEvidenceProvider>(
    model: InventoryModel,
    topology: &T,
    secret: u64,
    before: Seq<GpuFingerprint>,
    after: Seq<GpuFingerprint>,
    start: Seq<ConfigurationEvent>,
    log: Seq<ConfigurationEvent>,
    result: Result<FingerprintSummary, FingerprintError>,
) -> bool {
    let room = before.len() as int;
    let firmware = topology.boot_framebuffer();
    if room == 0 {
        &&& result == Err::<FingerprintSummary, _>(FingerprintError::OutputCapacity)
        &&& after == before
        &&& log == start
    } else if misplaces_a_function(
        model.functions,
        topology,
        inventory_order(model.functions, firmware, room),
    ) {
        &&& result == Err::<FingerprintSummary, _>(FingerprintError::InvalidHeader)
        &&& inventory_stopped(model, topology, secret, before, after, start, log)
    } else {
        &&& result == Ok::<FingerprintSummary, FingerprintError>(
            inventory_summary(model, firmware, room),
        )
        &&& inventory_measured(model, topology, secret, before, after, start, log)
    }
}

proof fn lemma_inventory_stopped<T: TopologyEvidenceProvider>(
    model: InventoryModel,
    topology: &T,
    incomplete: bool,
    secret: u64,
    before: Seq<GpuFingerprint>,
    after: Seq<GpuFingerprint>,
    start: Seq<ConfigurationEvent>,
    log: Seq<ConfigurationEvent>,
    measured: Seq<GpuFingerprint>,
    cuts: Seq<int>,
    place: int,
)
    requires
        incomplete == discovery_incomplete(
            model,
            topology.boot_framebuffer(),
            before.len() as int,
        ),
        entries_measure(
            after,
            measured,
            model.functions,
            topology,
            incomplete,
            secret,
            inventory_order(model.functions, topology.boot_framebuffer(), before.len() as int),
            cuts,
            log,
            start.len() as int,
            log.len() as int,
            place,
        ),
        first_misplaced(
            model.functions,
            topology,
            inventory_order(model.functions, topology.boot_framebuffer(), before.len() as int),
            place,
        ),
        forall|i: int| place <= i < before.len() ==> after[i] == before[i],
    ensures
        inventory_stopped(model, topology, secret, before, after, start, log),
{
}

fn locate_owner(functions: &[PciFunctionRecord], firmware: FirmwareFramebufferEvidence) -> (place:
    Option<usize>)
    ensures
        owner_place(functions@, firmware) == (match place {
            Some(index) => Some(index as int),
            None => None::<int>,
        }),
        place is Some ==> place->0 < functions@.len(),
{
    match firmware.owner {
        None => None,
        Some(owner) => {
            let mut index: usize = 0;
            while index < functions.len()
                invariant
                    index <= functions@.len(),
                    firmware.owner == Some(owner),
                    forall|i: int| 0 <= i < index ==> #[trigger] functions@[i].address != owner,
                    first_place(functions@, owner, 0) == first_place(
                        functions@,
                        owner,
                        index as int,
                    ),
                decreases functions@.len() - index,
            {
                if functions[index].address == owner {
                    assert(super::inventory::lists_address(functions@, owner));
                    return Some(index);
                }
                index += 1;
            }
            None
        },
    }
}

/// Fingerprints an inventory into `output`: the owner of the boot framebuffer
/// first, then the other functions while room is left, and last a stand-in for
/// a framebuffer that no listed function owns.
#[verifier::rlimit(40)]
pub fn fingerprint_inventory<const N: usize, C: PciConfigReader, T: TopologyEvidenceProvider>(
    inventory: &DisplayFunctionInventory<N>,
    config: &mut ConfigurationTrace<C>,
    topology: &T,
    secret: u64,
    output: &mut [GpuFingerprint],
) -> (result: Result<FingerprintSummary, FingerprintError>)
    ensures
        crate::trace::continues(final(config).log(), old(config).log()),
        final(output)@.len() == old(output)@.len(),
        result matches Ok(summary) ==> summary.length <= old(output)@.len(),
        inventory_outcome(
            inventory.model(),
            topology,
            secret,
            old(output)@,
            final(output)@,
            old(config).log(),
            final(config).log(),
            result,
        ),
{
    proof {
        reveal(inventory_outcome);
    }
    let room: usize = output.len();
    if room == 0 {
        return Err(FingerprintError::OutputCapacity);
    }
    let functions = inventory.functions();
    let firmware = topology.firmware_framebuffer();
    let owner = locate_owner(functions, firmware);
    let ghost owner_at = owner_place(functions@, firmware);
    let synthetic = firmware.usable() && owner.is_none();
    let capacity: usize = if synthetic {
        room - 1
    } else {
        room
    };
    let incomplete = inventory.overflowed() || functions.len() > capacity;
    let ghost start = config.log().len() as int;
    let ghost log0 = config.log();
    let ghost total = functions@.len() as int;
    let ghost order = measuring_order(owner_at, total, capacity as int);
    let ghost mut measured = Seq::<GpuFingerprint>::empty();
    let ghost mut cuts = seq![start];
    let mut length: usize = 0;
    if let Some(place) = owner {
        let function = &functions[place];
        let evidence = topology.evidence_for(function);
        proof {
            lemma_order_extends(owner_at, 0, total, capacity as int);
            assert(order[0] == place as int);
        }
        let mut fingerprint = match fingerprint_device(
            function,
            config,
            evidence,
            incomplete,
            secret,
        ) {
            Ok(fingerprint) => fingerprint,
            Err(error) => {
                assert(!segment_agrees(
                    functions@[order[0]],
                    topology.topology_of(functions@[order[0]]),
                ));
                proof {
                    assert(order == inventory_order(inventory@, firmware, room as int));
                    assert(crate::trace::continues(config.log(), config.log()));
                    assert(entries_measure(
                        output@,
                        measured,
                        inventory.model().functions,
                        topology,
                        incomplete,
                        secret,
                        order,
                        cuts,
                        config.log(),
                        start,
                        config.log().len() as int,
                        0,
                    )) by {
                        assert forall|k: int|
                            #![trigger output@[k]]
                            0 <= k < 0 implies entry_measures(
                            output@[k],
                            measured[k],
                            k,
                            functions@,
                            topology,
                            incomplete,
                            secret,
                            order,
                            cuts,
                            config.log(),
                        ) by {
                            assert(measured[k] == measured[k]);
                        }
                    }
                    assert(first_misplaced(inventory.model().functions, topology, order, 0));
                    lemma_inventory_stopped(
                        inventory.model(),
                        topology,
                        incomplete,
                        secret,
                        old(output)@,
                        output@,
                        old(config).log(),
                        config.log(),
                        measured,
                        cuts,
                        0,
                    );
                }
                return Err(error);
            },
        };
        proof {
            measured = measured.push(fingerprint);
            cuts = cuts.push(config.log().len() as int);
        }
        if firmware.usable() && !fingerprint.firmware_display_usable() {
            fingerprint.firmware_framebuffer = firmware;
            fingerprint.topology_flags = fingerprint.topology_flags
                | TOPOLOGY_FIRMWARE_FRAMEBUFFER;
            fingerprint.evidence_root = fingerprint_root(secret, &fingerprint);
            proof {
                lemma_root_ignores_root(
                    secret,
                    GpuFingerprint {
                        firmware_framebuffer: firmware,
                        topology_flags: measured[0].topology_flags
                            | TOPOLOGY_FIRMWARE_FRAMEBUFFER,
                        ..measured[0]
                    },
                    0,
                );
            }
        }
        output[length] = fingerprint;
        length = 1;
    }
    let mut index: usize = 0;
    while index < functions.len()
        invariant
            index <= functions@.len(),
            functions@ == inventory@,
            functions@.len() == total,
            room == output@.len(),
            room == old(output)@.len(),
            0 < room,
            firmware == topology.boot_framebuffer(),
            owner_at == owner_place(functions@, firmware),
            owner_at == (match owner {
                Some(place) => Some(place as int),
                None => None::<int>,
            }),
            synthetic == (firmware.usable() && owner_at is None),
            capacity == (if synthetic {
                room - 1
            } else {
                room as int
            }),
            incomplete == (inventory.model().overflowed || functions@.len() > capacity),
            start == log0.len(),
            log0 == old(config).log(),
            crate::trace::continues(config.log(), old(config).log()),
            order == measuring_order(owner_at, total, capacity as int),
            length == measuring_order(owner_at, index as int, capacity as int).len(),
            length <= capacity,
            owner_at is Some ==> 1 <= length,
            cuts.len() == length + 1,
            measured.len() == length,
            cuts[0] == start,
            cuts[length as int] == config.log().len(),
            forall|i: int| length <= i < room ==> output@[i] == old(output)@[i],
            forall|k: int|
                0 <= k < length ==> segment_agrees(
                    functions@[#[trigger] order[k]],
                    topology.topology_of(functions@[order[k]]),
                ),
            forall|log: Seq<ConfigurationEvent>, k: int|
                #![trigger crate::trace::continues(log, config.log()), measured[k]]
                crate::trace::continues(log, config.log()) && 0 <= k < length ==> entry_measures(
                    output@[k],
                    measured[k],
                    k,
                    functions@,
                    topology,
                    incomplete,
                    secret,
                    order,
                    cuts,
                    log,
                ),
        decreases functions@.len() - index,
    {
        let skipped = match owner {
            Some(place) => place == index,
            None => false,
        };
        if !skipped && length < capacity {
            let function = &functions[index];
            let evidence = topology.evidence_for(function);
            let ghost head = config.log();
            let ghost previous = output@;
            let ghost earlier_measured = measured;
            let ghost earlier_cuts = cuts;
            proof {
                lemma_order_extends(owner_at, index + 1, total, capacity as int);
                assert(order[length as int] == index as int);
            }
            let fingerprint = match fingerprint_device(
                function,
                config,
                evidence,
                incomplete,
                secret,
            ) {
                Ok(fingerprint) => fingerprint,
                Err(error) => {
                    assert(!segment_agrees(
                        functions@[order[length as int]],
                        topology.topology_of(functions@[order[length as int]]),
                    ));
                    proof {
                        reveal(inventory_outcome);
                        assert(order == inventory_order(inventory@, firmware, room as int));
                        assert(crate::trace::continues(config.log(), config.log()));
                        assert(entries_measure(
                            output@,
                            measured,
                            inventory.model().functions,
                            topology,
                            incomplete,
                            secret,
                            order,
                            cuts,
                            config.log(),
                            start,
                            config.log().len() as int,
                            length as int,
                        )) by {
                            assert forall|k: int|
                                #![trigger output@[k]]
                                0 <= k < length as int implies entry_measures(
                                output@[k],
                                measured[k],
                                k,
                                functions@,
                                topology,
                                incomplete,
                                secret,
                                order,
                                cuts,
                                config.log(),
                            ) by {
                                assert(measured[k] == measured[k]);
                            }
                        }
                        assert(first_misplaced(inventory.model().functions, topology, order, length as int));
                        lemma_inventory_stopped(
                            inventory.model(),
                            topology,
                            incomplete,
                            secret,
                            old(output)@,
                            output@,
                            old(config).log(),
                            config.log(),
                            measured,
                            cuts,
                            length as int,
                        );
                    }
                    return Err(error);
                },
            };
            output[length] = fingerprint;
            proof {
                measured = measured.push(fingerprint);
                cuts = cuts.push(config.log().len() as int);
                assert forall|log: Seq<ConfigurationEvent>, k: int|
                    #![trigger crate::trace::continues(log, config.log()), measured[k]]
                    crate::trace::continues(
                        log,
                        config.log(),
                    ) && 0 <= k < length + 1 implies entry_measures(
                    output@[k],
                    measured[k],
                    k,
                    functions@,
                    topology,
                    incomplete,
                    secret,
                    order,
                    cuts,
                    log,
                ) by {
                    assert(crate::trace::continues(log, head));
                    if k < length {
                        assert(measured[k] == earlier_measured[k]);
                        assert(output@[k] == previous[k]);
                        assert(cuts[k] == earlier_cuts[k]);
                        assert(cuts[k + 1] == earlier_cuts[k + 1]);
                    }
                }
            }
            length += 1;
        }
        index += 1;
    }
    proof {
        assert(crate::trace::continues(config.log(), config.log()));
        assert(entries_measure(
            output@,
            measured,
            functions@,
            topology,
            incomplete,
            secret,
            order,
            cuts,
            config.log(),
            start,
            config.log().len() as int,
            order.len() as int,
        )) by {
            assert forall|k: int|
                #![trigger output@[k]]
                0 <= k < order.len() implies entry_measures(
                output@[k],
                measured[k],
                k,
                functions@,
                topology,
                incomplete,
                secret,
                order,
                cuts,
                config.log(),
            ) by {
                assert(measured[k] == measured[k]);
            }
        }
    }
    let ghost listed = output@;
    if synthetic {
        let mut fingerprint = GpuFingerprint::empty();
        let ghost blank = fingerprint;
        fingerprint.firmware_framebuffer = firmware;
        fingerprint.topology_flags = synthetic_topology_flags(incomplete);
        fingerprint.evidence_root = fingerprint_root(secret, &fingerprint);
        output[length] = fingerprint;
        length += 1;
        proof {
            assert(is_synthetic(fingerprint, secret, firmware, incomplete)) by {
                assert(blank.is_empty());
            }
            assert(entries_measure(
                output@,
                measured,
                functions@,
                topology,
                incomplete,
                secret,
                order,
                cuts,
                config.log(),
                start,
                config.log().len() as int,
                order.len() as int,
            )) by {
                assert forall|k: int|
                    #![trigger output@[k]]
                    0 <= k < order.len() implies entry_measures(
                    output@[k],
                    measured[k],
                    k,
                    functions@,
                    topology,
                    incomplete,
                    secret,
                    order,
                    cuts,
                    config.log(),
                ) by {
                    assert(output@[k] == listed[k]);
                }
            }
        }
    }
    proof {
        assert(order == inventory_order(inventory@, firmware, room as int));
        assert(!misplaces_a_function(inventory@, topology, order));
        assert(length == inventory_summary(inventory.model(), firmware, room as int).length);
        assert(inventory_measured(
            inventory.model(),
            topology,
            secret,
            old(output)@,
            output@,
            old(config).log(),
            config.log(),
        ));
    }
    Ok(
        FingerprintSummary {
            length,
            display_functions: functions.len(),
            inventory_overflowed: incomplete,
            configuration_faults: inventory.configuration_faults(),
            synthetic_firmware_entry: synthetic,
        },
    )
}

proof fn lemma_root_ignores_root(secret: u64, fingerprint: GpuFingerprint, root: u64)
    ensures
        fingerprint_root_of(secret, GpuFingerprint { evidence_root: root, ..fingerprint })
            == fingerprint_root_of(secret, fingerprint),
{
    assert((GpuFingerprint { evidence_root: root, ..fingerprint }).words()
        =~= fingerprint.words());
}

proof fn lemma_order_extends(owner: Option<int>, upto: int, total: int, capacity: int)
    requires
        0 <= upto <= total,
    ensures
        crate::trace::continues(
            measuring_order(owner, total, capacity),
            measuring_order(owner, upto, capacity),
        ),
    decreases total - upto,
{
    if upto < total {
        lemma_order_extends(owner, upto, total - 1, capacity);
    }
}

/// A sealed fingerprint carries the root of its own content: resealing it under
/// the same secret changes nothing.
pub proof fn law_sealing_is_idempotent(secret: u64, fingerprint: GpuFingerprint)
    ensures
        sealed_fingerprint(secret, sealed_fingerprint(secret, fingerprint))
            == sealed_fingerprint(secret, fingerprint),
{
    lemma_root_ignores_root(secret, fingerprint, fingerprint_root_of(secret, fingerprint));
}

/// The walk of the conventional capability list reads at most one word per hop
/// that is left.
pub proof fn law_capability_walk_is_bounded(
    address: PciFunctionAddress,
    pointer: u16,
    visited: Set<u16>,
    hops: int,
    flags: u32,
    log: Seq<ConfigurationEvent>,
    at: int,
)
    requires
        0 <= hops <= MAXIMUM_CAPABILITY_HOPS,
    ensures
        capabilities_read(address, pointer, visited, hops, flags, log, at) matches Some((_, end))
            ==> at <= end <= at + MAXIMUM_CAPABILITY_HOPS - hops,
    decreases MAXIMUM_CAPABILITY_HOPS - hops,
{
    if pointer == 0 || pointer < 0x40 || pointer & 3 != 0 || hops >= MAXIMUM_CAPABILITY_HOPS
        || visited.contains(pointer) {
    } else if let Some(Ok(word)) = word_at(log, at, address, pointer) {
        law_capability_walk_is_bounded(
            address,
            (((word >> 8) as u8) & 0xfc) as u16,
            visited.insert(pointer),
            hops + 1,
            flags | capability_flag(word as u8),
            log,
            at + 1,
        );
    }
}

/// How many words a stretch of a transcript reads.
pub open spec fn words_read(log: Seq<ConfigurationEvent>, from: int, to: int) -> nat
    decreases to - from,
{
    if from >= to {
        0
    } else if log[from] is Word {
        1 + words_read(log, from + 1, to)
    } else {
        words_read(log, from + 1, to)
    }
}

/// The walk of the extended capability list reads at most one word per hop that
/// is left.
pub proof fn law_extended_capability_walk_is_bounded(
    address: PciFunctionAddress,
    pointer: u16,
    visited: Set<u16>,
    hops: int,
    flags: u32,
    log: Seq<ConfigurationEvent>,
    at: int,
)
    requires
        0 <= hops <= MAXIMUM_EXTENDED_HOPS,
    ensures
        extended_capabilities_read(
            address,
            pointer,
            visited,
            hops,
            flags,
            log,
            at,
        ) matches Some((_, end)) ==> at <= end && words_read(log, at, end)
            <= MAXIMUM_EXTENDED_HOPS - hops,
    decreases MAXIMUM_EXTENDED_HOPS - hops,
{
    reveal_with_fuel(words_read, 3);
    if pointer != 0 && pointer >= 0x0100 && hops < MAXIMUM_EXTENDED_HOPS && !visited.contains(
        pointer,
    ) {
        if let Some(Ok(header)) = word_at(log, at + 1, address, pointer) {
            if header != 0 && header != u32::MAX {
                law_extended_capability_walk_is_bounded(
                    address,
                    ((header >> 20) as u16) & 0x0ffc,
                    visited.insert(pointer),
                    hops + 1,
                    flags | extended_capability_flag(header as u16),
                    log,
                    at + 2,
                );
            }
        }
    }
}

/// The walk of the extended capability list reads no offset twice and none that it has
/// followed before; each is aligned, past the conventional space and within what the reader
/// had just said that it reaches.
pub proof fn law_extended_walk_reads_each_offset_once(
    address: PciFunctionAddress,
    pointer: u16,
    visited: Set<u16>,
    hops: int,
    flags: u32,
    log: Seq<ConfigurationEvent>,
    at: int,
)
    requires
        0 <= at,
    ensures
        extended_capabilities_read(
            address,
            pointer,
            visited,
            hops,
            flags,
            log,
            at,
        ) matches Some((_, end)) ==> {
            &&& forall|i: int|
                at <= i < end && (#[trigger] log[i]) is Word ==> {
                    &&& at < i
                    &&& log[i]->offset >= 0x0100
                    &&& log[i]->offset & 3 == 0
                    &&& !visited.contains(log[i]->offset)
                    &&& limit_at(log, i - 1) matches Some(limit) && log[i]->offset <= limit
                }
            &&& forall|i: int, j: int|
                at <= i < j < end && (#[trigger] log[i]) is Word && (#[trigger] log[j]) is Word
                    ==> log[i]->offset != log[j]->offset
        },
    decreases MAXIMUM_EXTENDED_HOPS - hops,
{
    if pointer != 0 && pointer >= 0x0100 && hops < MAXIMUM_EXTENDED_HOPS && !visited.contains(
        pointer,
    ) {
        if let Some(Ok(header)) = word_at(log, at + 1, address, pointer) {
            if header != 0 && header != u32::MAX {
                law_extended_walk_reads_each_offset_once(
                    address,
                    ((header >> 20) as u16) & 0x0ffc,
                    visited.insert(pointer),
                    hops + 1,
                    flags | extended_capability_flag(header as u16),
                    log,
                    at + 2,
                );
            }
        }
    }
}

/// A capability list that points back to where it has been is refused as a
/// cycle, without another read.
pub proof fn law_a_revisited_capability_is_a_cycle(
    address: PciFunctionAddress,
    pointer: u16,
    visited: Set<u16>,
    hops: int,
    flags: u32,
    log: Seq<ConfigurationEvent>,
    at: int,
)
    requires
        visited.contains(pointer),
        0x40 <= pointer,
        pointer & 3 == 0,
    ensures
        capabilities_read(address, pointer, visited, hops, flags, log, at) == Some(
            (Err::<u32, _>(FingerprintError::CapabilityCycle), at),
        ),
{
}

} // verus!
