//! Discovery of xHCI controllers and their activation up to a ready reset.
//!
//! A claimed function must expose a sound register set and give up firmware
//! ownership; its BAR0 aperture is measured, the controller is reset, and its
//! protocols are decoded. No DMA ring is set up and no USB device is
//! enumerated: a ready reset is a transport prerequisite, not input support.

use crate::device_census::{BindingAuthorization, DeviceAddress, PciFunctionEvidence};
use crate::drivernet::fingerprint::{
    ConfigurationTrace, FingerprintError, PciConfigReader, PciFunctionAddress,
};
use crate::mmio::{MmioAccessError, MmioFault, MmioTrace, RegisterAccess, RegisterWindow};
use crate::pci::{
    Bar0ApertureLease, Bar0ApertureRange, BarApertureBoundsError, PciAddress, PciDevice,
};
use crate::seal::{flag, mix, Sealer};
use crate::status::STATUS_OK;
use crate::xhci_protocol::{
    decode_supported_protocols, CheckedSupportedProtocolRead, DwordRead, ProtocolFindings,
    ProtocolTrace, SupportedProtocolError, SupportedProtocolEvidence, UsbProtocolKind,
};
use vstd::prelude::*;

verus! {

pub const XHCI_PROBE_DRIVER_ID: u64 = 0x5848_4349_5052_4f42;

pub const MAXIMUM_XHCI_CONTROLLERS: usize = 16;

pub const CAPABILITY_BYTES: usize = 0x20;

pub const MAXIMUM_BOOTSTRAP_EXTENDED_HEADERS: usize = 64;

pub const MAXIMUM_BOOTSTRAP_OFFSET: u32 = 0x000f_fffc;

pub const XHCI_BOOTSTRAP_CONTAINMENT_BYTES: u64 = 0x0010_0000;

pub const EXTENDED_CAPABILITY_LEGACY_SUPPORT: u8 = 1;

pub const PCI_BAR0: u16 = 0x10;

pub const PCI_CLASS_SERIAL_BUS: u8 = 0x0c;

pub const PCI_SUBCLASS_USB: u8 = 0x03;

pub const PCI_INTERFACE_XHCI: u8 = 0x30;

#[derive(Clone, Copy, Debug, PartialEq, Eq, Structural)]
pub enum XhciProbeError {
    InvalidSecret,
    InvalidAuthorizationRoot,
    WrongClass,
    EvidenceMismatch,
    Configuration(FingerprintError),
    ConfigurationChanged,
    IoBar,
    UnsupportedBarEncoding,
    MissingBar,
    AddressOverflow,
    Mmio(MmioAccessError),
    InvalidCapabilityLength(u8),
    UnsupportedInterfaceVersion(u16),
    InvalidGeometry,
    InvalidRegisterOffset,
    InvalidBootstrapOffset(u32),
    BootstrapCapabilityCapacity,
    BootstrapCapabilityOverlap(u32),
    Unmap(i32),
    Capacity,
    DuplicateAddress,
    AlreadyPublished,
}

impl From<MmioAccessError> for XhciProbeError {
    fn from(error: MmioAccessError) -> (probe: Self) {
        XhciProbeError::Mmio(error)
    }
}

impl vstd::std_specs::convert::FromSpecImpl<MmioAccessError> for XhciProbeError {
    open spec fn obeys_from_spec() -> bool {
        true
    }

    open spec fn from_spec(error: MmioAccessError) -> Self {
        XhciProbeError::Mmio(error)
    }
}

/// The probe error that a mapped access stands for.
#[verifier::allow_in_spec]
pub fn probe_fault(fault: MmioFault) -> XhciProbeError
    returns
        (match fault {
            MmioFault::Access(error) => XhciProbeError::Mmio(error),
            MmioFault::Unmap(status) => XhciProbeError::Unmap(status),
        }),
{
    match fault {
        MmioFault::Access(error) => XhciProbeError::Mmio(error),
        MmioFault::Unmap(status) => XhciProbeError::Unmap(status),
    }
}

#[derive(Clone, Copy, Debug, PartialEq, Eq, Structural)]
pub struct XhciCapabilitySnapshot {
    pub address: DeviceAddress,
    pub evidence_root: u64,
    pub binding_root: u64,
    pub mmio_base: u64,
    pub capability_length: u8,
    pub interface_version: u16,
    pub maximum_device_slots: u8,
    pub maximum_interrupters: u16,
    pub maximum_ports: u8,
    pub maximum_scratchpad_buffers: u16,
    pub supports_64_bit_addresses: bool,
    pub uses_64_byte_contexts: bool,
    pub doorbell_offset: u32,
    pub runtime_offset: u32,
    pub extended_capabilities_offset: u32,
    pub legacy_support_offset: u32,
    pub bootstrap_header_count: u8,
    pub bootstrap_range_root: u64,
    pub snapshot_root: u64,
}

impl XhciCapabilitySnapshot {
    /// The words that a snapshot root seals.
    pub open spec fn words(self) -> Seq<u64> {
        seq![
            self.address.segment as u64,
            self.address.bus as u64,
            self.address.slot as u64,
            self.address.function as u64,
            self.evidence_root,
            self.binding_root,
            self.mmio_base,
            self.capability_length as u64,
            self.interface_version as u64,
            self.maximum_device_slots as u64,
            self.maximum_interrupters as u64,
            self.maximum_ports as u64,
            self.maximum_scratchpad_buffers as u64,
            crate::seal::flag_word(self.supports_64_bit_addresses),
            crate::seal::flag_word(self.uses_64_byte_contexts),
            self.doorbell_offset as u64,
            self.runtime_offset as u64,
            self.extended_capabilities_offset as u64,
            self.legacy_support_offset as u64,
            self.bootstrap_header_count as u64,
            self.bootstrap_range_root,
        ]
    }

    /// The snapshot with its root set.
    pub open spec fn sealed(self, secret: u64) -> XhciCapabilitySnapshot {
        XhciCapabilitySnapshot {
            snapshot_root: crate::seal::seal_of(secret, self.words()),
            ..self
        }
    }
}

fn snapshot_root(secret: u64, snapshot: XhciCapabilitySnapshot) -> (root: u64)
    ensures
        root == crate::seal::seal_of(secret, snapshot.words()),
{
    let head = Sealer::new(secret).word(snapshot.address.segment as u64).word(
        snapshot.address.bus as u64,
    ).word(snapshot.address.slot as u64).word(snapshot.address.function as u64).word(
        snapshot.evidence_root,
    ).word(snapshot.binding_root).word(snapshot.mmio_base).word(
        snapshot.capability_length as u64,
    ).word(snapshot.interface_version as u64).word(snapshot.maximum_device_slots as u64).word(
        snapshot.maximum_interrupters as u64,
    );
    head.word(snapshot.maximum_ports as u64).word(
        snapshot.maximum_scratchpad_buffers as u64,
    ).word(flag(snapshot.supports_64_bit_addresses)).word(
        flag(snapshot.uses_64_byte_contexts),
    ).word(snapshot.doorbell_offset as u64).word(snapshot.runtime_offset as u64).word(
        snapshot.extended_capabilities_offset as u64,
    ).word(snapshot.legacy_support_offset as u64).word(
        snapshot.bootstrap_header_count as u64,
    ).word(snapshot.bootstrap_range_root).root()
}

/// The capability registers of a controller.
#[derive(Clone, Copy, Debug, PartialEq, Eq, Structural)]
pub struct CapabilityRegisters {
    pub cap_version: u32,
    pub hcsparams1: u32,
    pub hcsparams2: u32,
    pub hccparams1: u32,
    pub doorbell_offset: u32,
    pub runtime_offset: u32,
}

impl CapabilityRegisters {
    #[verifier::allow_in_spec]
    pub fn capability_length(self) -> u8
        returns
            (self.cap_version as u8),
    {
        self.cap_version as u8
    }

    #[verifier::allow_in_spec]
    pub fn interface_version(self) -> u16
        returns
            ((self.cap_version >> 16) as u16),
    {
        (self.cap_version >> 16) as u16
    }

    #[verifier::allow_in_spec]
    pub fn maximum_interrupters(self) -> u16
        returns
            (((self.hcsparams1 >> 8) & 0x7ff) as u16),
    {
        ((self.hcsparams1 >> 8) & 0x7ff) as u16
    }

    /// The first register that is out of bounds, in the order of inspection.
    #[verifier::allow_in_spec]
    pub fn fault(self) -> Option<XhciProbeError>
        returns
            (if self.capability_length() < CAPABILITY_BYTES || self.capability_length() & 0x03
                != 0 {
                Some(XhciProbeError::InvalidCapabilityLength(self.capability_length()))
            } else if self.interface_version() < 0x0096 || self.interface_version() > 0x0120
                || !is_packed_bcd(self.interface_version()) {
                Some(XhciProbeError::UnsupportedInterfaceVersion(self.interface_version()))
            } else if self.hcsparams1 as u8 == 0 || self.maximum_interrupters() == 0
                || self.maximum_interrupters() > 1024 || (self.hcsparams1 >> 24) as u8 == 0 {
                Some(XhciProbeError::InvalidGeometry)
            } else if self.doorbell_offset < self.capability_length() || self.runtime_offset
                < self.capability_length() {
                Some(XhciProbeError::InvalidRegisterOffset)
            } else {
                None::<XhciProbeError>
            }),
    {
        let capability_length: u8 = self.capability_length();
        if (capability_length as usize) < CAPABILITY_BYTES || capability_length & 0x03 != 0 {
            return Some(XhciProbeError::InvalidCapabilityLength(capability_length));
        }
        let version: u16 = self.interface_version();
        if version < 0x0096 || version > 0x0120 || !is_packed_bcd(version) {
            return Some(XhciProbeError::UnsupportedInterfaceVersion(version));
        }
        let interrupters: u16 = self.maximum_interrupters();
        if self.hcsparams1 as u8 == 0 || interrupters == 0 || interrupters > 1024
            || (self.hcsparams1 >> 24) as u8 == 0 {
            return Some(XhciProbeError::InvalidGeometry);
        }
        if self.doorbell_offset < capability_length as u32 || self.runtime_offset
            < capability_length as u32 {
            return Some(XhciProbeError::InvalidRegisterOffset);
        }
        None
    }

    #[verifier::allow_in_spec]
    pub fn scratchpad_buffers(self) -> u16
        returns
            (((((self.hcsparams2 >> 21) & 0x1f) as u16) << 5u16) | (((self.hcsparams2 >> 27)
                & 0x1f) as u16)),
    {
        ((((self.hcsparams2 >> 21) & 0x1f) as u16) << 5u16) | (((self.hcsparams2 >> 27)
            & 0x1f) as u16)
    }

    /// The byte offset of the first extended capability.
    pub open spec fn extended_capabilities(self) -> u32 {
        (((self.hccparams1 >> 16) & 0xffff) * 4) as u32
    }

    fn extended_capabilities_offset(self) -> (offset: u32)
        ensures
            offset == self.extended_capabilities(),
    {
        let parameters: u32 = self.hccparams1;
        assert((parameters >> 16) & 0xffff <= 0xffff) by {
            crate::bits::lemma_word32(parameters);
        }
        ((parameters >> 16) & 0xffff) * 4
    }
}

#[verifier::allow_in_spec]
pub fn is_packed_bcd(value: u16) -> bool
    returns
        (value & 0x000f <= 9 && (value >> 4) & 0x000f <= 9 && (value >> 8) & 0x000f <= 9 && (
        value >> 12) & 0x000f <= 9),
{
    value & 0x000f <= 9 && (value >> 4) & 0x000f <= 9 && (value >> 8) & 0x000f <= 9 && (value
        >> 12) & 0x000f <= 9
}

/// The unsealed snapshot of sound registers.
pub open spec fn snapshot_of(
    address: DeviceAddress,
    evidence_root: u64,
    binding_root: u64,
    mmio_base: u64,
    registers: CapabilityRegisters,
) -> XhciCapabilitySnapshot {
    XhciCapabilitySnapshot {
        address,
        evidence_root,
        binding_root,
        mmio_base,
        capability_length: registers.capability_length(),
        interface_version: registers.interface_version(),
        maximum_device_slots: registers.hcsparams1 as u8,
        maximum_interrupters: registers.maximum_interrupters(),
        maximum_ports: (registers.hcsparams1 >> 24) as u8,
        maximum_scratchpad_buffers: registers.scratchpad_buffers(),
        supports_64_bit_addresses: registers.hccparams1 & 1 != 0,
        uses_64_byte_contexts: registers.hccparams1 & 4 != 0,
        doorbell_offset: registers.doorbell_offset,
        runtime_offset: registers.runtime_offset,
        extended_capabilities_offset: registers.extended_capabilities(),
        legacy_support_offset: 0,
        bootstrap_header_count: 0,
        bootstrap_range_root: 0,
        snapshot_root: 0,
    }
}

/// The snapshot that registers decode to.
pub open spec fn decoded_snapshot(
    address: DeviceAddress,
    evidence_root: u64,
    binding_root: u64,
    mmio_base: u64,
    registers: CapabilityRegisters,
    secret: u64,
) -> Result<XhciCapabilitySnapshot, XhciProbeError> {
    if evidence_root == 0 || binding_root == 0 {
        Err(XhciProbeError::InvalidAuthorizationRoot)
    } else {
        match registers.fault() {
            Some(error) => Err(error),
            None => Ok(
                snapshot_of(address, evidence_root, binding_root, mmio_base, registers).sealed(
                    secret,
                ),
            ),
        }
    }
}

pub fn decode_snapshot(
    address: DeviceAddress,
    evidence_root: u64,
    binding_root: u64,
    mmio_base: u64,
    registers: CapabilityRegisters,
    secret: u64,
) -> (result: Result<XhciCapabilitySnapshot, XhciProbeError>)
    ensures
        result == decoded_snapshot(
            address,
            evidence_root,
            binding_root,
            mmio_base,
            registers,
            secret,
        ),
{
    if evidence_root == 0 || binding_root == 0 {
        return Err(XhciProbeError::InvalidAuthorizationRoot);
    }
    match registers.fault() {
        Some(error) => {
            return Err(error);
        },
        None => {},
    }
    let mut snapshot = XhciCapabilitySnapshot {
        address,
        evidence_root,
        binding_root,
        mmio_base,
        capability_length: registers.capability_length(),
        interface_version: registers.interface_version(),
        maximum_device_slots: registers.hcsparams1 as u8,
        maximum_interrupters: registers.maximum_interrupters(),
        maximum_ports: (registers.hcsparams1 >> 24) as u8,
        maximum_scratchpad_buffers: registers.scratchpad_buffers(),
        supports_64_bit_addresses: registers.hccparams1 & 1 != 0,
        uses_64_byte_contexts: registers.hccparams1 & 4 != 0,
        doorbell_offset: registers.doorbell_offset,
        runtime_offset: registers.runtime_offset,
        extended_capabilities_offset: registers.extended_capabilities_offset(),
        legacy_support_offset: 0,
        bootstrap_header_count: 0,
        bootstrap_range_root: 0,
        snapshot_root: 0,
    };
    snapshot.snapshot_root = snapshot_root(secret, snapshot);
    Ok(snapshot)
}

/// The memory that BAR0 points to.
#[verifier::allow_in_spec]
pub fn decode_bar0(evidence: PciFunctionEvidence) -> Result<u64, XhciProbeError>
    returns
        ({
            let low = evidence.raw_bars[0];
            let base_low = (low & !0x0f) as u64;
            let memory_type = (low >> 1) & 0x03;
            let wide = ((evidence.raw_bars[1] as u64) << 32) | base_low;
            if evidence.bar_count == 0 || low == 0 || low == u32::MAX {
                Err(XhciProbeError::MissingBar)
            } else if low & 1 != 0 {
                Err(XhciProbeError::IoBar)
            } else if memory_type == 0 {
                if base_low == 0 {
                    Err(XhciProbeError::MissingBar)
                } else {
                    Ok::<u64, XhciProbeError>(base_low)
                }
            } else if memory_type != 2 || evidence.bar_count < 2 {
                Err(XhciProbeError::UnsupportedBarEncoding)
            } else if wide == 0 {
                Err(XhciProbeError::MissingBar)
            } else {
                Ok(wide)
            }
        }),
{
    if evidence.bar_count == 0 {
        return Err(XhciProbeError::MissingBar);
    }
    let low: u32 = evidence.raw_bars[0];
    if low == 0 || low == u32::MAX {
        return Err(XhciProbeError::MissingBar);
    }
    if low & 1 != 0 {
        return Err(XhciProbeError::IoBar);
    }
    let base_low: u64 = (low & !0x0f) as u64;
    let memory_type: u32 = (low >> 1) & 0x03;
    let base: u64 = if memory_type == 0 {
        base_low
    } else if memory_type == 2 {
        if evidence.bar_count < 2 {
            return Err(XhciProbeError::UnsupportedBarEncoding);
        }
        let high: u32 = evidence.raw_bars[1];
        ((high as u64) << 32) | base_low
    } else {
        return Err(XhciProbeError::UnsupportedBarEncoding);
    };
    if base == 0 {
        Err(XhciProbeError::MissingBar)
    } else {
        Ok(base)
    }
}

/// A capability header lies past the fixed registers, on a dword, and inside
/// the stretch that is trusted before the aperture is measured.
#[verifier::allow_in_spec]
pub fn validate_bootstrap_offset(offset: u32) -> Result<(), XhciProbeError>
    returns
        (if offset < CAPABILITY_BYTES || offset & 0x03 != 0 || offset > MAXIMUM_BOOTSTRAP_OFFSET {
            Err(XhciProbeError::InvalidBootstrapOffset(offset))
        } else {
            Ok::<(), XhciProbeError>(())
        }),
{
    if offset < CAPABILITY_BYTES as u32 || offset & 0x03 != 0 || offset
        > MAXIMUM_BOOTSTRAP_OFFSET {
        Err(XhciProbeError::InvalidBootstrapOffset(offset))
    } else {
        Ok(())
    }
}

/// The code and detail by which a probe error is sealed.
#[verifier::allow_in_spec]
pub fn probe_error_code(error: XhciProbeError) -> (u64, u64)
    returns
        (match error {
            XhciProbeError::InvalidSecret => (1u64, 0u64),
            XhciProbeError::InvalidAuthorizationRoot => (2u64, 0u64),
            XhciProbeError::WrongClass => (3u64, 0u64),
            XhciProbeError::EvidenceMismatch => (4u64, 0u64),
            XhciProbeError::Configuration(_) => (5u64, 0u64),
            XhciProbeError::ConfigurationChanged => (6u64, 0u64),
            XhciProbeError::IoBar => (7u64, 0u64),
            XhciProbeError::UnsupportedBarEncoding => (8u64, 0u64),
            XhciProbeError::MissingBar => (9u64, 0u64),
            XhciProbeError::AddressOverflow => (10u64, 0u64),
            XhciProbeError::Mmio(_) => (11u64, 0u64),
            XhciProbeError::InvalidCapabilityLength(length) => (12u64, length as u64),
            XhciProbeError::UnsupportedInterfaceVersion(version) => (13u64, version as u64),
            XhciProbeError::InvalidGeometry => (14u64, 0u64),
            XhciProbeError::InvalidRegisterOffset => (15u64, 0u64),
            XhciProbeError::InvalidBootstrapOffset(offset) => (16u64, offset as u64),
            XhciProbeError::BootstrapCapabilityCapacity => (17u64, 0u64),
            XhciProbeError::BootstrapCapabilityOverlap(offset) => (18u64, offset as u64),
            XhciProbeError::Unmap(status) => (19u64, (status as u32) as u64),
            XhciProbeError::Capacity => (20u64, 0u64),
            XhciProbeError::DuplicateAddress => (21u64, 0u64),
            XhciProbeError::AlreadyPublished => (22u64, 0u64),
        }),
{
    match error {
        XhciProbeError::InvalidSecret => (1, 0),
        XhciProbeError::InvalidAuthorizationRoot => (2, 0),
        XhciProbeError::WrongClass => (3, 0),
        XhciProbeError::EvidenceMismatch => (4, 0),
        XhciProbeError::Configuration(_) => (5, 0),
        XhciProbeError::ConfigurationChanged => (6, 0),
        XhciProbeError::IoBar => (7, 0),
        XhciProbeError::UnsupportedBarEncoding => (8, 0),
        XhciProbeError::MissingBar => (9, 0),
        XhciProbeError::AddressOverflow => (10, 0),
        XhciProbeError::Mmio(_) => (11, 0),
        XhciProbeError::InvalidCapabilityLength(length) => (12, length as u64),
        XhciProbeError::UnsupportedInterfaceVersion(version) => (13, version as u64),
        XhciProbeError::InvalidGeometry => (14, 0),
        XhciProbeError::InvalidRegisterOffset => (15, 0),
        XhciProbeError::InvalidBootstrapOffset(offset) => (16, offset as u64),
        XhciProbeError::BootstrapCapabilityCapacity => (17, 0),
        XhciProbeError::BootstrapCapabilityOverlap(offset) => (18, offset as u64),
        XhciProbeError::Unmap(status) => (19, (status as u32) as u64),
        XhciProbeError::Capacity => (20, 0),
        XhciProbeError::DuplicateAddress => (21, 0),
        XhciProbeError::AlreadyPublished => (22, 0),
    }
}

/// The words that the root of a contained controller seals.
pub open spec fn containment_words(
    evidence_root: u64,
    address: DeviceAddress,
    error: XhciProbeError,
) -> Seq<u64> {
    seq![
        evidence_root,
        address.segment as u64,
        address.bus as u64,
        address.slot as u64,
        address.function as u64,
        probe_error_code(error).0,
        probe_error_code(error).1,
    ]
}

pub fn containment_root(
    secret: u64,
    evidence_root: u64,
    address: DeviceAddress,
    error: XhciProbeError,
) -> (root: Option<u64>)
    ensures
        root == (if secret == 0 || evidence_root == 0 {
            None
        } else {
            Some(
                crate::seal::seal_of(secret, containment_words(evidence_root, address, error)),
            )
        }),
{
    if secret == 0 || evidence_root == 0 {
        return None;
    }
    let (code, detail): (u64, u64) = probe_error_code(error);
    Some(
        Sealer::new(secret).word(evidence_root).word(address.segment as u64).word(
            address.bus as u64,
        ).word(address.slot as u64).word(address.function as u64).word(code).word(detail).root(),
    )
}

/// Controllers contained for errors that differ in code alone, or in detail
/// alone, never share a root.
pub proof fn law_containment_binds_the_error(
    secret: u64,
    evidence_root: u64,
    address: DeviceAddress,
    error: XhciProbeError,
    other: XhciProbeError,
)
    requires
        (probe_error_code(error).0 == probe_error_code(other).0) != (probe_error_code(error).1
            == probe_error_code(other).1),
    ensures
        crate::seal::seal_of(secret, containment_words(evidence_root, address, error))
            != crate::seal::seal_of(secret, containment_words(evidence_root, address, other)),
{
    let words = containment_words(evidence_root, address, error);
    let changed = containment_words(evidence_root, address, other);
    let (code, detail) = probe_error_code(other);
    if probe_error_code(error).0 != code {
        assert(words.update(5, code) =~= changed);
        crate::seal::law_root_binds_every_word(secret, words, 5, code);
    } else {
        assert(words.update(6, detail) =~= changed);
        crate::seal::law_root_binds_every_word(secret, words, 6, detail);
    }
}

#[derive(Clone, Copy, Debug, PartialEq, Eq, Structural)]
pub struct BootstrapRange {
    pub offset: u32,
    pub length: u8,
}

/// The headers that discovery touched, sealed as they came.
#[derive(Debug, PartialEq, Eq)]
pub struct BootstrapRangeJournal {
    pub ranges: Vec<BootstrapRange>,
    pub root: u64,
}

/// The journal root after one more header.
pub open spec fn journal_root_with(root: u64, range: BootstrapRange, header: u32) -> u64 {
    crate::seal::seal_of(root, seq![range.offset as u64, range.length as u64, header as u64])
}

impl BootstrapRangeJournal {
    pub fn new(secret: u64, initial_offset: u32) -> (journal: Self)
        ensures
            journal.ranges@ == Seq::<BootstrapRange>::empty(),
            journal.root == crate::seal::seal_of(secret, seq![initial_offset as u64]),
    {
        BootstrapRangeJournal {
            ranges: Vec::new(),
            root: Sealer::new(secret).word(initial_offset as u64).root(),
        }
    }

    pub fn push(&mut self, range: BootstrapRange, header: u32) -> (result: Result<
        (),
        XhciProbeError,
    >)
        ensures
            if old(self).ranges@.len() >= MAXIMUM_BOOTSTRAP_EXTENDED_HEADERS {
                result == Err::<(), _>(XhciProbeError::BootstrapCapabilityCapacity)
                    && *final(self) == *old(self)
            } else {
                result is Ok && final(self).ranges@ == old(self).ranges@.push(range)
                    && final(self).root == journal_root_with(old(self).root, range, header)
            },
    {
        if self.ranges.len() >= MAXIMUM_BOOTSTRAP_EXTENDED_HEADERS {
            return Err(XhciProbeError::BootstrapCapabilityCapacity);
        }
        self.ranges.push(range);
        self.root = Sealer::new(self.root).word(range.offset as u64).word(
            range.length as u64,
        ).word(header as u64).root();
        Ok(())
    }

    pub fn ranges(&self) -> (ranges: &[BootstrapRange])
        ensures
            ranges@ == self.ranges@,
    {
        self.ranges.as_slice()
    }

    #[verifier::allow_in_spec]
    pub fn root(&self) -> u64
        returns
            self.root,
    {
        self.root
    }
}

/// What discovery found before the aperture was measured.
pub struct BootstrapDiscovery {
    pub legacy_support_offset: u32,
    pub journal: BootstrapRangeJournal,
}

/// What a discovery says.
pub struct BootstrapFindings {
    pub legacy_support_offset: u32,
    pub ranges: Seq<BootstrapRange>,
    pub root: u64,
}

impl View for BootstrapDiscovery {
    type V = BootstrapFindings;

    open spec fn view(&self) -> BootstrapFindings {
        BootstrapFindings {
            legacy_support_offset: self.legacy_support_offset,
            ranges: self.journal.ranges@,
            root: self.journal.root,
        }
    }
}

/// A capability header, by the transcript.
pub open spec fn header_run(
    mmio_base: u64,
    offset: u32,
    log: Seq<crate::mmio::MmioEvent>,
    at: int,
) -> Option<(Result<u32, XhciProbeError>, int)> {
    if mmio_base + offset > u64::MAX {
        Some((Err(XhciProbeError::AddressOverflow), at))
    } else {
        match crate::mmio::access_run(
            (mmio_base + offset) as u64,
            RegisterAccess::Read32,
            log,
            at,
        ) {
            None => None,
            Some((Ok(header), after)) => Some((Ok(header), after)),
            Some((Err(fault), after)) => Some((Err(probe_fault(fault)), after)),
        }
    }
}

fn read_header<W: RegisterWindow>(
    mmio_base: u64,
    offset: u32,
    trace: &mut MmioTrace<W>,
) -> (result: Result<u32, XhciProbeError>)
    ensures
        crate::trace::continues(final(trace).log(), old(trace).log()),
        forall|log: Seq<crate::mmio::MmioEvent>| #[trigger]
            crate::trace::continues(log, final(trace).log()) ==> header_run(
                mmio_base,
                offset,
                log,
                old(trace).log().len() as int,
            ) == Some((result, final(trace).log().len() as int)),
{
    match mmio_base.checked_add(offset as u64) {
        None => Err(XhciProbeError::AddressOverflow),
        Some(physical) => match trace.with_window(physical, RegisterAccess::Read32) {
            Ok(header) => Ok(header),
            Err(fault) => Err(probe_fault(fault)),
        },
    }
}

/// Where the header chain goes on after a header.
#[verifier::allow_in_spec]
pub fn next_header(offset: u32, header: u32) -> Result<u32, XhciProbeError>
    requires
        offset <= MAXIMUM_BOOTSTRAP_OFFSET,
    returns
        ({
            let dwords = (header >> 8) & 0xff;
            let next = (offset + dwords * 4) as u32;
            if dwords == 0 {
                Ok::<u32, XhciProbeError>(0)
            } else {
                match validate_bootstrap_offset(next) {
                    Err(error) => Err(error),
                    Ok(_) => Ok(next),
                }
            }
        }),
{
    let dwords: u32 = (header >> 8) & 0xff;
    if dwords == 0 {
        return Ok(0);
    }
    assert((header >> 8) & 0xff <= 0xff) by {
        crate::bits::lemma_word32(header);
    }
    let next: u32 = offset + dwords * 4;
    match validate_bootstrap_offset(next) {
        Err(error) => Err(error),
        Ok(()) => Ok(next),
    }
}

/// The stretch that a header takes, unless the next one starts inside it.
#[verifier::allow_in_spec]
pub fn header_range(offset: u32, header: u32, next: u32) -> Result<BootstrapRange, XhciProbeError>
    returns
        (if header as u8 != EXTENDED_CAPABILITY_LEGACY_SUPPORT {
            Ok::<BootstrapRange, XhciProbeError>(BootstrapRange { offset, length: 4 })
        } else if next != 0 && next < offset + 8 {
            Err(XhciProbeError::BootstrapCapabilityOverlap(offset))
        } else {
            Ok(BootstrapRange { offset, length: 8 })
        }),
{
    if header as u8 != EXTENDED_CAPABILITY_LEGACY_SUPPORT {
        return Ok(BootstrapRange { offset, length: 4 });
    }
    if next != 0 && (next < offset || next - offset < 8) {
        return Err(XhciProbeError::BootstrapCapabilityOverlap(offset));
    }
    Ok(BootstrapRange { offset, length: 8 })
}

/// A walk of the header chain from a header on, by the transcript. It ends at
/// the legacy support capability, or where the chain ends.
pub open spec fn discovery_run(
    mmio_base: u64,
    offset: u32,
    found: BootstrapFindings,
    log: Seq<crate::mmio::MmioEvent>,
    at: int,
) -> Option<(Result<BootstrapFindings, XhciProbeError>, int)>
    decreases MAXIMUM_BOOTSTRAP_EXTENDED_HEADERS - found.ranges.len(),
{
    if offset == 0 {
        Some((Ok(found), at))
    } else {
        match validate_bootstrap_offset(offset) {
            Err(error) => Some((Err(error), at)),
            Ok(_) => if found.ranges.len() >= MAXIMUM_BOOTSTRAP_EXTENDED_HEADERS {
                Some((Err(XhciProbeError::BootstrapCapabilityCapacity), at))
            } else {
                match header_run(mmio_base, offset, log, at) {
                    None => None,
                    Some((Err(error), after)) => Some((Err(error), after)),
                    Some((Ok(header), after)) => match next_header(offset, header) {
                        Err(error) => Some((Err(error), after)),
                        Ok(next) => match header_range(offset, header, next) {
                            Err(error) => Some((Err(error), after)),
                            Ok(range) => {
                                let grown = BootstrapFindings {
                                    legacy_support_offset: if header as u8
                                        == EXTENDED_CAPABILITY_LEGACY_SUPPORT {
                                        offset
                                    } else {
                                        found.legacy_support_offset
                                    },
                                    ranges: found.ranges.push(range),
                                    root: journal_root_with(found.root, range, header),
                                };
                                if header as u8 == EXTENDED_CAPABILITY_LEGACY_SUPPORT {
                                    Some((Ok(grown), after))
                                } else {
                                    discovery_run(mmio_base, next, grown, log, after)
                                }
                            },
                        },
                    },
                }
            },
        }
    }
}

/// A discovery that has seen nothing yet.
pub open spec fn no_findings(secret: u64, initial_offset: u32) -> BootstrapFindings {
    BootstrapFindings {
        legacy_support_offset: 0,
        ranges: Seq::empty(),
        root: crate::seal::seal_of(secret, seq![initial_offset as u64]),
    }
}

/// A discovery, by what it says.
pub open spec fn discovered(result: Result<BootstrapDiscovery, XhciProbeError>) -> Result<
    BootstrapFindings,
    XhciProbeError,
> {
    match result {
        Ok(discovery) => Ok(discovery@),
        Err(error) => Err(error),
    }
}

pub fn discover_bootstrap_capabilities<W: RegisterWindow>(
    mmio_base: u64,
    initial_offset: u32,
    secret: u64,
    trace: &mut MmioTrace<W>,
) -> (result: Result<BootstrapDiscovery, XhciProbeError>)
    ensures
        crate::trace::continues(final(trace).log(), old(trace).log()),
        forall|log: Seq<crate::mmio::MmioEvent>| #[trigger]
            crate::trace::continues(log, final(trace).log()) ==> discovery_run(
                mmio_base,
                initial_offset,
                no_findings(secret, initial_offset),
                log,
                old(trace).log().len() as int,
            ) == Some((discovered(result), final(trace).log().len() as int)),
        result matches Ok(discovery) ==> discovery.journal.ranges@.len()
            <= MAXIMUM_BOOTSTRAP_EXTENDED_HEADERS,
{
    let mut offset: u32 = initial_offset;
    let mut journal = BootstrapRangeJournal::new(secret, initial_offset);
    assert(no_findings(secret, initial_offset) == (BootstrapFindings {
        legacy_support_offset: 0,
        ranges: journal.ranges@,
        root: journal.root,
    }));
    while offset != 0
        invariant
            journal.ranges@.len() <= MAXIMUM_BOOTSTRAP_EXTENDED_HEADERS,
            crate::trace::continues(trace.log(), old(trace).log()),
            forall|log: Seq<crate::mmio::MmioEvent>| #[trigger]
                crate::trace::continues(log, trace.log()) ==> discovery_run(
                    mmio_base,
                    initial_offset,
                    no_findings(secret, initial_offset),
                    log,
                    old(trace).log().len() as int,
                ) == discovery_run(
                    mmio_base,
                    offset,
                    (BootstrapFindings {
                        legacy_support_offset: 0,
                        ranges: journal.ranges@,
                        root: journal.root,
                    }),
                    log,
                    trace.log().len() as int,
                ),
        decreases MAXIMUM_BOOTSTRAP_EXTENDED_HEADERS - journal.ranges@.len(),
    {
        match validate_bootstrap_offset(offset) {
            Err(error) => {
                return Err(error);
            },
            Ok(()) => {},
        }
        if journal.ranges.len() >= MAXIMUM_BOOTSTRAP_EXTENDED_HEADERS {
            return Err(XhciProbeError::BootstrapCapabilityCapacity);
        }
        let ghost head = trace.log();
        let read = read_header(mmio_base, offset, trace);
        assert forall|log: Seq<crate::mmio::MmioEvent>| #[trigger]
            crate::trace::continues(log, trace.log()) implies crate::trace::continues(
            log,
            head,
        ) by {}
        let header: u32 = match read {
            Err(error) => {
                return Err(error);
            },
            Ok(header) => header,
        };
        let next: u32 = match next_header(offset, header) {
            Err(error) => {
                return Err(error);
            },
            Ok(next) => next,
        };
        let range = match header_range(offset, header, next) {
            Err(error) => {
                return Err(error);
            },
            Ok(range) => range,
        };
        match journal.push(range, header) {
            Err(error) => {
                return Err(error);
            },
            Ok(()) => {},
        }
        if header as u8 == EXTENDED_CAPABILITY_LEGACY_SUPPORT {
            return Ok(BootstrapDiscovery { legacy_support_offset: offset, journal });
        }
        offset = next;
    }
    Ok(BootstrapDiscovery { legacy_support_offset: 0, journal })
}

/// Whether the first configuration words still tell what the evidence told.
#[verifier::allow_in_spec]
pub fn header_unchanged(
    vendor_device: u32,
    command_status: u32,
    class_revision: u32,
    header: u32,
    evidence: PciFunctionEvidence,
) -> bool
    returns
        (vendor_device as u16 == evidence.vendor_id && (vendor_device >> 16) as u16
            == evidence.device_id && command_status as u16 == evidence.command
            && class_revision as u8 == evidence.revision && (class_revision >> 8) as u8
            == evidence.programming_interface && (class_revision >> 16) as u8 == evidence.subclass
            && (class_revision >> 24) as u8 == evidence.class_code && (header >> 16) as u8
            == evidence.header_type),
{
    vendor_device as u16 == evidence.vendor_id && (vendor_device >> 16) as u16
        == evidence.device_id && command_status as u16 == evidence.command && class_revision as u8
        == evidence.revision && (class_revision >> 8) as u8 == evidence.programming_interface && (
    class_revision >> 16) as u8 == evidence.subclass && (class_revision >> 24) as u8
        == evidence.class_code && (header >> 16) as u8 == evidence.header_type
}

/// Whether the base address registers are unchanged, from one on, by the
/// transcript.
pub open spec fn bars_run(
    function: PciFunctionAddress,
    evidence: PciFunctionEvidence,
    index: int,
    log: Seq<crate::drivernet::fingerprint::ConfigurationEvent>,
    at: int,
) -> Option<(Option<XhciProbeError>, int)>
    decreases evidence.bar_count - index,
{
    if index >= evidence.bar_count {
        Some((None, at))
    } else {
        match crate::drivernet::fingerprint::word_at(
            log,
            at,
            function,
            (PCI_BAR0 + index * 4) as u16,
        ) {
            None => None,
            Some(Err(error)) => Some((Some(XhciProbeError::Configuration(error)), at + 1)),
            Some(Ok(word)) => if word != evidence.raw_bars[index] {
                Some((Some(XhciProbeError::ConfigurationChanged), at + 1))
            } else {
                bars_run(function, evidence, index + 1, log, at + 1)
            },
        }
    }
}

/// What the configuration is refused for, by the transcript.
pub open spec fn configuration_run(
    function: PciFunctionAddress,
    evidence: PciFunctionEvidence,
    log: Seq<crate::drivernet::fingerprint::ConfigurationEvent>,
    at: int,
) -> Option<(Option<XhciProbeError>, int)> {
    match crate::drivernet::fingerprint::word_at(log, at, function, 0x00) {
        None => None,
        Some(Err(error)) => Some((Some(XhciProbeError::Configuration(error)), at + 1)),
        Some(Ok(vendor_device)) => match crate::drivernet::fingerprint::word_at(
            log,
            at + 1,
            function,
            0x04,
        ) {
            None => None,
            Some(Err(error)) => Some((Some(XhciProbeError::Configuration(error)), at + 2)),
            Some(Ok(command_status)) => match crate::drivernet::fingerprint::word_at(
                log,
                at + 2,
                function,
                0x08,
            ) {
                None => None,
                Some(Err(error)) => Some((Some(XhciProbeError::Configuration(error)), at + 3)),
                Some(Ok(class_revision)) => match crate::drivernet::fingerprint::word_at(
                    log,
                    at + 3,
                    function,
                    0x0c,
                ) {
                    None => None,
                    Some(Err(error)) => Some((Some(XhciProbeError::Configuration(error)), at + 4)),
                    Some(Ok(header)) => if !header_unchanged(
                        vendor_device,
                        command_status,
                        class_revision,
                        header,
                        evidence,
                    ) {
                        Some((Some(XhciProbeError::ConfigurationChanged), at + 4))
                    } else {
                        bars_run(function, evidence, 0, log, at + 4)
                    },
                },
            },
        },
    }
}

/// What a check refuses with.
pub open spec fn refusal(result: Result<(), XhciProbeError>) -> Option<XhciProbeError> {
    match result {
        Ok(_) => None,
        Err(error) => Some(error),
    }
}

fn validate_bars<C: PciConfigReader>(
    function: PciFunctionAddress,
    evidence: PciFunctionEvidence,
    trace: &mut ConfigurationTrace<C>,
) -> (result: Result<(), XhciProbeError>)
    requires
        evidence.bar_count <= 6,
    ensures
        crate::trace::continues(final(trace).log(), old(trace).log()),
        forall|log: Seq<crate::drivernet::fingerprint::ConfigurationEvent>| #[trigger]
            crate::trace::continues(log, final(trace).log()) ==> bars_run(
                function,
                evidence,
                0,
                log,
                old(trace).log().len() as int,
            ) == Some((refusal(result), final(trace).log().len() as int)),
{
    let mut index: usize = 0;
    while index < evidence.bar_count as usize
        invariant
            index <= evidence.bar_count <= 6,
            crate::trace::continues(trace.log(), old(trace).log()),
            forall|log: Seq<crate::drivernet::fingerprint::ConfigurationEvent>| #[trigger]
                crate::trace::continues(log, trace.log()) ==> bars_run(
                    function,
                    evidence,
                    0,
                    log,
                    old(trace).log().len() as int,
                ) == bars_run(function, evidence, index as int, log, trace.log().len() as int),
        decreases evidence.bar_count - index,
    {
        let ghost head = trace.log();
        let read = trace.read_u32(function, PCI_BAR0 + index as u16 * 4);
        assert forall|log: Seq<crate::drivernet::fingerprint::ConfigurationEvent>| #[trigger]
            crate::trace::continues(log, trace.log()) implies crate::trace::continues(log, head)
            && log[head.len() as int] == trace.log()[head.len() as int] by {}
        let word: u32 = match read {
            Err(error) => {
                return Err(XhciProbeError::Configuration(error));
            },
            Ok(word) => word,
        };
        if word != evidence.raw_bars[index] {
            return Err(XhciProbeError::ConfigurationChanged);
        }
        index = index + 1;
    }
    Ok(())
}

/// The function must still answer as it did when its evidence was taken.
pub fn validate_configuration<C: PciConfigReader>(
    trace: &mut ConfigurationTrace<C>,
    function: PciFunctionAddress,
    evidence: PciFunctionEvidence,
) -> (result: Result<(), XhciProbeError>)
    requires
        evidence.bar_count <= 6,
    ensures
        crate::trace::continues(final(trace).log(), old(trace).log()),
        forall|log: Seq<crate::drivernet::fingerprint::ConfigurationEvent>| #[trigger]
            crate::trace::continues(log, final(trace).log()) ==> configuration_run(
                function,
                evidence,
                log,
                old(trace).log().len() as int,
            ) == Some((refusal(result), final(trace).log().len() as int)),
{
    let ghost start = trace.log().len() as int;
    let vendor_device: u32 = match trace.read_u32(function, 0x00) {
        Err(error) => {
            assert(trace.log()[start] is Word);
            return Err(XhciProbeError::Configuration(error));
        },
        Ok(word) => word,
    };
    assert(trace.log()[start] is Word);
    let ghost one = trace.log();
    let read = trace.read_u32(function, 0x04);
    assert(trace.log()[start] == one[start] && trace.log()[start + 1] is Word);
    let command_status: u32 = match read {
        Err(error) => {
            return Err(XhciProbeError::Configuration(error));
        },
        Ok(word) => word,
    };
    let ghost two = trace.log();
    let read = trace.read_u32(function, 0x08);
    assert(trace.log()[start] == one[start] && trace.log()[start + 1] == two[start + 1]
        && trace.log()[start + 2] is Word);
    let class_revision: u32 = match read {
        Err(error) => {
            return Err(XhciProbeError::Configuration(error));
        },
        Ok(word) => word,
    };
    let ghost three = trace.log();
    let read = trace.read_u32(function, 0x0c);
    assert(trace.log()[start] == one[start] && trace.log()[start + 1] == two[start + 1]
        && trace.log()[start + 2] == three[start + 2] && trace.log()[start + 3] is Word);
    let header: u32 = match read {
        Err(error) => {
            return Err(XhciProbeError::Configuration(error));
        },
        Ok(word) => word,
    };
    if !header_unchanged(vendor_device, command_status, class_revision, header, evidence) {
        return Err(XhciProbeError::ConfigurationChanged);
    }
    let ghost four = trace.log();
    let result = validate_bars(function, evidence, trace);
    assert forall|log: Seq<crate::drivernet::fingerprint::ConfigurationEvent>| #[trigger]
        crate::trace::continues(log, trace.log()) implies crate::trace::continues(log, four)
        && log[start] == one[start] && log[start + 1] == two[start + 1] && log[start + 2]
        == three[start + 2] && log[start + 3] == four[start + 3] by {
        assert(log[start] == four[start]);
        assert(log[start + 1] == four[start + 1]);
        assert(log[start + 2] == four[start + 2]);
        assert(log[start + 3] == four[start + 3]);
    }
    result
}

/// Where the capability register of some number stands.
#[verifier::allow_in_spec]
pub fn capability_register(index: usize) -> usize
    returns
        (if index < 3 {
            (index * 4) as usize
        } else if index == 3 {
            0x10usize
        } else if index == 4 {
            0x14usize
        } else {
            0x18usize
        }),
{
    if index < 3 {
        index * 4
    } else if index == 3 {
        0x10
    } else if index == 4 {
        0x14
    } else {
        0x18
    }
}

/// The registers that six words hold.
pub open spec fn registers_of(words: Seq<u32>) -> CapabilityRegisters {
    CapabilityRegisters {
        cap_version: words[0],
        hcsparams1: words[1],
        hcsparams2: words[2],
        hccparams1: words[3],
        doorbell_offset: words[4] & !0x03,
        runtime_offset: words[5] & !0x1f,
    }
}

/// The capability registers, read on from those that were read already.
pub open spec fn registers_run(
    words: Seq<u32>,
    log: Seq<crate::mmio::MmioEvent>,
    at: int,
) -> Option<(Result<CapabilityRegisters, MmioAccessError>, int)>
    decreases 6 - words.len(),
{
    if words.len() >= 6 {
        Some((Ok(registers_of(words)), at))
    } else {
        match crate::mmio::read_at(log, at, capability_register(words.len() as usize)) {
            None => None,
            Some(Err(error)) => Some((Err(error), at + 1)),
            Some(Ok(word)) => registers_run(words.push(word), log, at + 1),
        }
    }
}

fn read_registers<W: RegisterWindow>(trace: &mut MmioTrace<W>) -> (result: Result<
    CapabilityRegisters,
    MmioAccessError,
>)
    ensures
        crate::trace::continues(final(trace).log(), old(trace).log()),
        forall|log: Seq<crate::mmio::MmioEvent>| #[trigger]
            crate::trace::continues(log, final(trace).log()) ==> registers_run(
                Seq::empty(),
                log,
                old(trace).log().len() as int,
            ) == Some((result, final(trace).log().len() as int)),
{
    let mut words: Vec<u32> = Vec::new();
    while words.len() < 6
        invariant
            words@.len() <= 6,
            crate::trace::continues(trace.log(), old(trace).log()),
            forall|log: Seq<crate::mmio::MmioEvent>| #[trigger]
                crate::trace::continues(log, trace.log()) ==> registers_run(
                    Seq::empty(),
                    log,
                    old(trace).log().len() as int,
                ) == registers_run(words@, log, trace.log().len() as int),
        decreases 6 - words@.len(),
    {
        let ghost head = trace.log();
        let read = trace.read_u32(capability_register(words.len()));
        assert forall|log: Seq<crate::mmio::MmioEvent>| #[trigger]
            crate::trace::continues(log, trace.log()) implies crate::trace::continues(log, head)
            && log[head.len() as int] == trace.log()[head.len() as int] by {}
        match read {
            Err(error) => {
                return Err(error);
            },
            Ok(word) => {
                words.push(word);
            },
        }
    }
    Ok(
        CapabilityRegisters {
            cap_version: words[0],
            hcsparams1: words[1],
            hcsparams2: words[2],
            hccparams1: words[3],
            doorbell_offset: words[4] & !0x03,
            runtime_offset: words[5] & !0x1f,
        },
    )
}

/// Which controller a snapshot is taken of.
#[derive(Clone, Copy, Debug, PartialEq, Eq, Structural)]
pub struct SnapshotSubject {
    pub address: DeviceAddress,
    pub evidence_root: u64,
    pub binding_root: u64,
    pub mmio_base: u64,
}

/// The snapshot that a reading of the registers amounts to.
pub open spec fn read_snapshot_of(
    subject: SnapshotSubject,
    read: Result<CapabilityRegisters, MmioAccessError>,
    secret: u64,
) -> Result<XhciCapabilitySnapshot, XhciProbeError> {
    match read {
        Err(error) => Err(XhciProbeError::Mmio(error)),
        Ok(registers) => decoded_snapshot(
            subject.address,
            subject.evidence_root,
            subject.binding_root,
            subject.mmio_base,
            registers,
            secret,
        ),
    }
}

/// A snapshot, by the transcript.
pub open spec fn snapshot_run(
    subject: SnapshotSubject,
    secret: u64,
    log: Seq<crate::mmio::MmioEvent>,
    at: int,
) -> Option<(Result<XhciCapabilitySnapshot, XhciProbeError>, int)> {
    match crate::mmio::map_at(log, at, subject.mmio_base, CAPABILITY_BYTES) {
        None => None,
        Some(Some(error)) => Some((Err(XhciProbeError::Mmio(error)), at + 1)),
        Some(None) => match registers_run(Seq::empty(), log, at + 1) {
            None => None,
            Some((read, after)) => match crate::mmio::close_at(log, after) {
                None => None,
                Some(status) => Some(
                    (
                        if status != STATUS_OK {
                            Err(XhciProbeError::Unmap(status))
                        } else {
                            read_snapshot_of(subject, read, secret)
                        },
                        after + 1,
                    ),
                ),
            },
        },
    }
}

fn read_snapshot<W: RegisterWindow>(
    subject: SnapshotSubject,
    secret: u64,
    trace: &mut MmioTrace<W>,
) -> (result: Result<XhciCapabilitySnapshot, XhciProbeError>)
    ensures
        crate::trace::continues(final(trace).log(), old(trace).log()),
        forall|log: Seq<crate::mmio::MmioEvent>| #[trigger]
            crate::trace::continues(log, final(trace).log()) ==> snapshot_run(
                subject,
                secret,
                log,
                old(trace).log().len() as int,
            ) == Some((result, final(trace).log().len() as int)),
{
    let ghost start = trace.log().len() as int;
    match trace.map(subject.mmio_base, CAPABILITY_BYTES) {
        Some(error) => {
            assert(trace.log()[start] is Open);
            return Err(XhciProbeError::Mmio(error));
        },
        None => {},
    }
    assert(trace.log()[start] is Open);
    let ghost mapped = trace.log();
    let read = read_registers(trace);
    let ghost after = trace.log();
    let decoded = match read {
        Err(error) => Err(XhciProbeError::Mmio(error)),
        Ok(registers) => decode_snapshot(
            subject.address,
            subject.evidence_root,
            subject.binding_root,
            subject.mmio_base,
            registers,
            secret,
        ),
    };
    let status: i32 = trace.close();
    assert forall|log: Seq<crate::mmio::MmioEvent>| #[trigger]
        crate::trace::continues(log, trace.log()) implies crate::trace::continues(log, after)
        && log[start] == mapped[start] && log[after.len() as int] == trace.log()[after.len() as int] by {
        assert(log[start] == after[start]);
    }
    if status != STATUS_OK {
        return Err(XhciProbeError::Unmap(status));
    }
    decoded
}

/// A claimed controller on its way to a ready reset. It holds the authorization
/// of the claim until it ends as ready or as contained.
pub struct XhciBootstrap {
    pub authorization: BindingAuthorization,
    pub evidence: PciFunctionEvidence,
    pub snapshot: XhciCapabilitySnapshot,
    pub journal: BootstrapRangeJournal,
}

/// The snapshot with what discovery found, sealed again.
pub open spec fn with_findings(
    snapshot: XhciCapabilitySnapshot,
    found: BootstrapFindings,
    secret: u64,
) -> XhciCapabilitySnapshot {
    XhciCapabilitySnapshot {
        legacy_support_offset: found.legacy_support_offset,
        bootstrap_header_count: found.ranges.len() as u8,
        bootstrap_range_root: found.root,
        ..snapshot
    }.sealed(secret)
}

/// What a function is refused for before any register is read.
pub open spec fn identity_fault(
    authorization: BindingAuthorization,
    evidence: PciFunctionEvidence,
    secret: u64,
) -> Option<XhciProbeError> {
    if secret == 0 {
        Some(XhciProbeError::InvalidSecret)
    } else if evidence.address != authorization.address_of() || evidence.evidence_root
        != authorization.evidence_root_of() {
        Some(XhciProbeError::EvidenceMismatch)
    } else if evidence.class_code != PCI_CLASS_SERIAL_BUS || evidence.subclass != PCI_SUBCLASS_USB
        || evidence.programming_interface != PCI_INTERFACE_XHCI {
        Some(XhciProbeError::WrongClass)
    } else {
        None
    }
}

/// What a probe finds of a controller, by the transcript of its registers.
pub open spec fn probe_run(
    subject: SnapshotSubject,
    secret: u64,
    log: Seq<crate::mmio::MmioEvent>,
    at: int,
) -> Option<(Result<(XhciCapabilitySnapshot, Seq<BootstrapRange>), XhciProbeError>, int)> {
    match snapshot_run(subject, secret, log, at) {
        None => None,
        Some((Err(error), after)) => Some((Err(error), after)),
        Some((Ok(snapshot), after)) => match discovery_run(
            subject.mmio_base,
            snapshot.extended_capabilities_offset,
            no_findings(secret, snapshot.extended_capabilities_offset),
            log,
            after,
        ) {
            None => None,
            Some((Err(error), end)) => Some((Err(error), end)),
            Some((Ok(found), end)) => Some(
                (Ok((with_findings(snapshot, found, secret), found.ranges)), end),
            ),
        },
    }
}

fn probe_registers<W: RegisterWindow>(
    subject: SnapshotSubject,
    secret: u64,
    registers: &mut MmioTrace<W>,
) -> (result: Result<(XhciCapabilitySnapshot, BootstrapRangeJournal), XhciProbeError>)
    ensures
        crate::trace::continues(final(registers).log(), old(registers).log()),
        forall|log: Seq<crate::mmio::MmioEvent>| #[trigger]
            crate::trace::continues(log, final(registers).log()) ==> probe_run(
                subject,
                secret,
                log,
                old(registers).log().len() as int,
            ) == Some(
                (
                    match result {
                        Ok(found) => Ok::<
                            (XhciCapabilitySnapshot, Seq<BootstrapRange>),
                            XhciProbeError,
                        >((found.0, found.1.ranges@)),
                        Err(error) => Err(error),
                    },
                    final(registers).log().len() as int,
                ),
            ),
        result matches Ok(found) ==> found.0.bootstrap_range_root == found.1.root,
{
    let mut snapshot = match read_snapshot(subject, secret, registers) {
        Err(error) => {
            return Err(error);
        },
        Ok(snapshot) => snapshot,
    };
    let ghost read = registers.log();
    let discovery = discover_bootstrap_capabilities(
        subject.mmio_base,
        snapshot.extended_capabilities_offset,
        secret,
        registers,
    );
    assert forall|log: Seq<crate::mmio::MmioEvent>| #[trigger]
        crate::trace::continues(log, registers.log()) implies crate::trace::continues(
        log,
        read,
    ) by {}
    let discovery = match discovery {
        Err(error) => {
            return Err(error);
        },
        Ok(discovery) => discovery,
    };
    let ghost unsealed = snapshot;
    snapshot.legacy_support_offset = discovery.legacy_support_offset;
    snapshot.bootstrap_header_count = discovery.journal.ranges.len() as u8;
    snapshot.bootstrap_range_root = discovery.journal.root;
    snapshot.snapshot_root = snapshot_root(secret, snapshot);
    proof {
        let joined = XhciCapabilitySnapshot {
            legacy_support_offset: discovery.legacy_support_offset,
            bootstrap_header_count: discovery.journal.ranges@.len() as u8,
            bootstrap_range_root: discovery.journal.root,
            ..unsealed
        };
        assert(joined.words() =~= snapshot.words());
    }
    Ok((snapshot, discovery.journal))
}

/// Probes a claimed function up to its capability registers and headers.
pub fn probe_bootstrap<C: PciConfigReader, W: RegisterWindow>(
    authorization: BindingAuthorization,
    evidence: PciFunctionEvidence,
    configuration: &mut ConfigurationTrace<C>,
    registers: &mut MmioTrace<W>,
    secret: u64,
) -> (result: Result<XhciBootstrap, XhciProbeError>)
    requires
        evidence.bar_count <= 6,
    ensures
        crate::trace::continues(final(configuration).log(), old(configuration).log()),
        crate::trace::continues(final(registers).log(), old(registers).log()),
        result matches Ok(bootstrap) ==> bootstrap.authorization == authorization
            && bootstrap.evidence == evidence && bootstrap.journal.root
            == bootstrap.snapshot.bootstrap_range_root,
        match identity_fault(authorization, evidence, secret) {
            Some(error) => {
                &&& result == Err::<XhciBootstrap, XhciProbeError>(error)
                &&& final(configuration).log() == old(configuration).log()
                &&& final(registers).log() == old(registers).log()
            },
            None => exists|refused: Option<XhciProbeError>|
                {
                    &&& #[trigger] configuration_outcome(
                        evidence,
                        old(configuration).log(),
                        final(configuration).log(),
                        refused,
                    )
                    &&& probe_outcome(
                        authorization,
                        evidence,
                        secret,
                        refused,
                        old(registers).log(),
                        final(registers).log(),
                        result,
                    )
                },
        },
{
    if secret == 0 {
        return Err(XhciProbeError::InvalidSecret);
    }
    let address = authorization.address();
    let evidence_root: u64 = authorization.evidence_root();
    let binding_root: u64 = authorization.authorization_root();
    if evidence.address != address || evidence.evidence_root != evidence_root {
        return Err(XhciProbeError::EvidenceMismatch);
    }
    if evidence.class_code != PCI_CLASS_SERIAL_BUS || evidence.subclass != PCI_SUBCLASS_USB
        || evidence.programming_interface != PCI_INTERFACE_XHCI {
        return Err(XhciProbeError::WrongClass);
    }
    let function = PciFunctionAddress {
        segment: address.segment,
        bus: address.bus,
        slot: address.slot,
        function: address.function,
    };
    let checked = validate_configuration(configuration, function, evidence);
    let ghost refused = refusal(checked);
    assert(configuration_outcome(
        evidence,
        old(configuration).log(),
        configuration.log(),
        refused,
    ));
    match checked {
        Err(error) => {
            return Err(error);
        },
        Ok(()) => {},
    }
    let mmio_base: u64 = match decode_bar0(evidence) {
        Err(error) => {
            return Err(error);
        },
        Ok(base) => base,
    };
    if mmio_base > u64::MAX - CAPABILITY_BYTES as u64 {
        return Err(XhciProbeError::AddressOverflow);
    }
    let subject = SnapshotSubject { address, evidence_root, binding_root, mmio_base };
    match probe_registers(subject, secret, registers) {
        Err(error) => Err(error),
        Ok((snapshot, journal)) => Ok(
            XhciBootstrap { authorization, evidence, snapshot, journal },
        ),
    }
}

/// Whether the configuration was checked with some outcome between two states of
/// its transcript.
pub open spec fn configuration_outcome(
    evidence: PciFunctionEvidence,
    before: Seq<crate::drivernet::fingerprint::ConfigurationEvent>,
    after: Seq<crate::drivernet::fingerprint::ConfigurationEvent>,
    refused: Option<XhciProbeError>,
) -> bool {
    forall|log: Seq<crate::drivernet::fingerprint::ConfigurationEvent>| #[trigger]
        crate::trace::continues(log, after) ==> configuration_run(
            PciFunctionAddress {
                segment: evidence.address.segment,
                bus: evidence.address.bus,
                slot: evidence.address.slot,
                function: evidence.address.function,
            },
            evidence,
            log,
            before.len() as int,
        ) == Some((refused, after.len() as int))
}

/// Whether a probe ended as it must, once the configuration was checked.
pub open spec fn probe_outcome(
    authorization: BindingAuthorization,
    evidence: PciFunctionEvidence,
    secret: u64,
    refused: Option<XhciProbeError>,
    before: Seq<crate::mmio::MmioEvent>,
    after: Seq<crate::mmio::MmioEvent>,
    result: Result<XhciBootstrap, XhciProbeError>,
) -> bool {
    let early = match refused {
        Some(error) => Some(error),
        None => match decode_bar0(evidence) {
            Err(error) => Some(error),
            Ok(base) => if base + CAPABILITY_BYTES > u64::MAX {
                Some(XhciProbeError::AddressOverflow)
            } else {
                None
            },
        },
    };
    match early {
        Some(error) => result == Err::<XhciBootstrap, XhciProbeError>(error) && after == before,
        None => forall|log: Seq<crate::mmio::MmioEvent>| #[trigger]
            crate::trace::continues(log, after) ==> probe_run(
                SnapshotSubject {
                    address: evidence.address,
                    evidence_root: evidence.evidence_root,
                    binding_root: authorization.root_of(),
                    mmio_base: decode_bar0(evidence).unwrap(),
                },
                secret,
                log,
                before.len() as int,
            ) == Some(
                (
                    match result {
                        Ok(bootstrap) => Ok::<
                            (XhciCapabilitySnapshot, Seq<BootstrapRange>),
                            XhciProbeError,
                        >((bootstrap.snapshot, bootstrap.journal.ranges@)),
                        Err(error) => Err(error),
                    },
                    after.len() as int,
                ),
            ),
    }
}

/// The phases of taking a controller over.
#[derive(Clone, Copy, Debug, PartialEq, Eq, Structural)]
pub enum TakeoverPhase {
    ObserveLegacyOwnership,
    ClaimLegacyOwnership,
    AwaitLegacyRelease,
    RequestHalt,
    AwaitHalt,
    AwaitMeasuredAperture,
    RequestReset,
    AwaitReset,
    ReadyHalted,
    Faulted,
}

impl TakeoverPhase {
    #[verifier::allow_in_spec]
    pub fn code(self) -> u64
        returns
            (match self {
                TakeoverPhase::ObserveLegacyOwnership => 0u64,
                TakeoverPhase::ClaimLegacyOwnership => 1u64,
                TakeoverPhase::AwaitLegacyRelease => 2u64,
                TakeoverPhase::RequestHalt => 3u64,
                TakeoverPhase::AwaitHalt => 4u64,
                TakeoverPhase::AwaitMeasuredAperture => 5u64,
                TakeoverPhase::RequestReset => 6u64,
                TakeoverPhase::AwaitReset => 7u64,
                TakeoverPhase::ReadyHalted => 8u64,
                TakeoverPhase::Faulted => 9u64,
            }),
    {
        match self {
            TakeoverPhase::ObserveLegacyOwnership => 0,
            TakeoverPhase::ClaimLegacyOwnership => 1,
            TakeoverPhase::AwaitLegacyRelease => 2,
            TakeoverPhase::RequestHalt => 3,
            TakeoverPhase::AwaitHalt => 4,
            TakeoverPhase::AwaitMeasuredAperture => 5,
            TakeoverPhase::RequestReset => 6,
            TakeoverPhase::AwaitReset => 7,
            TakeoverPhase::ReadyHalted => 8,
            TakeoverPhase::Faulted => 9,
        }
    }

    /// Whether a step in this phase writes to the controller.
    #[verifier::allow_in_spec]
    pub fn mutates(self) -> bool
        returns
            (self == TakeoverPhase::ClaimLegacyOwnership || self == TakeoverPhase::RequestHalt
                || self == TakeoverPhase::RequestReset),
    {
        self == TakeoverPhase::ClaimLegacyOwnership || self == TakeoverPhase::RequestHalt || self
            == TakeoverPhase::RequestReset
    }
}

#[derive(Clone, Copy, Debug, PartialEq, Eq, Structural)]
pub enum TakeoverFaultClass {
    RegisterAccess,
    Deadline,
    Timeout,
    HostControllerError,
    IllegalControllerState,
    ReadyHaltedInvariant,
    MeasuredApertureRequired,
    TerminalState,
}

/// What a finished takeover observed.
#[derive(Clone, Copy, Debug, PartialEq, Eq, Structural)]
pub struct ReadyHalted {
    pub measured_aperture_bytes: u64,
    pub command: u32,
    pub status: u32,
    pub legacy_handoff_performed: bool,
    pub ports_observed: u8,
}

#[derive(Clone, Copy, Debug, PartialEq, Eq, Structural)]
pub enum XhciRetentionError {
    AddressMismatch,
    AuthorizationMismatch,
    ApertureEvidenceMismatch,
    ProtocolEvidenceMismatch,
    ApertureBounds(BarApertureBoundsError),
    InvalidRoot,
}

/// A controller that was reset and whose protocols are known.
pub struct XhciResetReadyController {
    pub bootstrap: XhciBootstrap,
    pub aperture: Bar0ApertureLease,
    pub ready: ReadyHalted,
    pub protocols: SupportedProtocolEvidence,
    pub reset_ready_root: u64,
}

impl XhciResetReadyController {
    #[verifier::allow_in_spec]
    pub fn snapshot(&self) -> XhciCapabilitySnapshot
        returns
            self.bootstrap.snapshot,
    {
        self.bootstrap.snapshot
    }

    pub fn aperture(&self) -> (aperture: &Bar0ApertureLease)
        ensures
            *aperture == self.aperture,
    {
        &self.aperture
    }

    pub fn ready(&self) -> (ready: &ReadyHalted)
        ensures
            *ready == self.ready,
    {
        &self.ready
    }

    pub fn protocols(&self) -> (protocols: &SupportedProtocolEvidence)
        ensures
            *protocols == self.protocols,
    {
        &self.protocols
    }

    #[verifier::allow_in_spec]
    pub fn reset_ready_root(&self) -> u64
        returns
            self.reset_ready_root,
    {
        self.reset_ready_root
    }
}

/// The authorization root, where the authorization is that of the snapshot.
pub open spec fn retained_authorization(
    authorization: BindingAuthorization,
    snapshot: XhciCapabilitySnapshot,
) -> Result<u64, XhciRetentionError> {
    if authorization.address_of() != snapshot.address {
        Err(XhciRetentionError::AddressMismatch)
    } else if authorization.evidence_root_of() != snapshot.evidence_root
        || authorization.root_of() != snapshot.binding_root {
        Err(XhciRetentionError::AuthorizationMismatch)
    } else {
        Ok(authorization.root_of())
    }
}

fn retained_authorization_root(bootstrap: &XhciBootstrap) -> (result: Result<
    u64,
    XhciRetentionError,
>)
    ensures
        result == retained_authorization(bootstrap.authorization, bootstrap.snapshot),
{
    if bootstrap.authorization.address() != bootstrap.snapshot.address {
        return Err(XhciRetentionError::AddressMismatch);
    }
    if bootstrap.authorization.evidence_root() != bootstrap.snapshot.evidence_root
        || bootstrap.authorization.authorization_root() != bootstrap.snapshot.binding_root {
        return Err(XhciRetentionError::AuthorizationMismatch);
    }
    Ok(bootstrap.authorization.authorization_root())
}

/// The first range, from one on, that leaves the aperture.
pub open spec fn ranges_fault(
    aperture: Bar0ApertureLease,
    ranges: Seq<BootstrapRange>,
    index: int,
) -> Option<BarApertureBoundsError>
    decreases ranges.len() - index,
{
    if index < 0 || index >= ranges.len() {
        None
    } else {
        match aperture.checked_range(ranges[index].offset as u64, ranges[index].length as usize) {
            Err(error) => Some(error),
            Ok(_) => ranges_fault(aperture, ranges, index + 1),
        }
    }
}

/// The first of the registers in use that leaves the aperture.
pub open spec fn registers_fault(
    aperture: Bar0ApertureLease,
    snapshot: XhciCapabilitySnapshot,
    ranges: Seq<BootstrapRange>,
) -> Option<BarApertureBoundsError> {
    match aperture.checked_range(0, CAPABILITY_BYTES) {
        Err(error) => Some(error),
        Ok(_) => match aperture.checked_range(snapshot.doorbell_offset as u64, 4) {
            Err(error) => Some(error),
            Ok(_) => match aperture.checked_range(snapshot.runtime_offset as u64, 0x20) {
                Err(error) => Some(error),
                Ok(_) => ranges_fault(aperture, ranges, 0),
            },
        },
    }
}

fn check_registers(
    aperture: &Bar0ApertureLease,
    snapshot: XhciCapabilitySnapshot,
    ranges: &[BootstrapRange],
) -> (fault: Option<BarApertureBoundsError>)
    ensures
        fault == registers_fault(*aperture, snapshot, ranges@),
{
    match aperture.checked_range(0, CAPABILITY_BYTES) {
        Err(error) => {
            return Some(error);
        },
        Ok(_) => {},
    }
    match aperture.checked_range(snapshot.doorbell_offset as u64, 4) {
        Err(error) => {
            return Some(error);
        },
        Ok(_) => {},
    }
    match aperture.checked_range(snapshot.runtime_offset as u64, 0x20) {
        Err(error) => {
            return Some(error);
        },
        Ok(_) => {},
    }
    let mut index: usize = 0;
    while index < ranges.len()
        invariant
            index <= ranges@.len(),
            registers_fault(*aperture, snapshot, ranges@) == ranges_fault(
                *aperture,
                ranges@,
                index as int,
            ),
        decreases ranges@.len() - index,
    {
        match aperture.checked_range(ranges[index].offset as u64, ranges[index].length as usize) {
            Err(error) => {
                return Some(error);
            },
            Ok(_) => {},
        }
        index = index + 1;
    }
    None
}

/// The words that the root of a ready controller seals.
pub open spec fn ready_words(
    snapshot_root: u64,
    authorization_root: u64,
    aperture: Bar0ApertureLease,
    ready: ReadyHalted,
    protocols_root: u64,
) -> Seq<u64> {
    seq![
        snapshot_root,
        authorization_root,
        aperture.physical_base,
        aperture.length,
        ready.command as u64,
        ready.status as u64,
        crate::seal::flag_word(ready.legacy_handoff_performed),
        ready.ports_observed as u64,
        protocols_root,
    ]
}

/// The root of a controller, where all its evidence fits together.
pub open spec fn retained_controller(
    bootstrap: XhciBootstrap,
    aperture: Bar0ApertureLease,
    ready: ReadyHalted,
    protocols: ProtocolFindings,
    secret: u64,
) -> Result<u64, XhciRetentionError> {
    let snapshot = bootstrap.snapshot;
    if secret == 0 {
        Err(XhciRetentionError::InvalidRoot)
    } else {
        match retained_authorization(bootstrap.authorization, snapshot) {
            Err(error) => Err(error),
            Ok(authorization_root) => if snapshot.address.segment != 0 || aperture.address.bus
                != snapshot.address.bus || aperture.address.slot != snapshot.address.slot
                || aperture.address.function != snapshot.address.function {
                Err(XhciRetentionError::AddressMismatch)
            } else if aperture.physical_base != snapshot.mmio_base || aperture.length
                != ready.measured_aperture_bytes {
                Err(XhciRetentionError::ApertureEvidenceMismatch)
            } else if protocols.aperture_base != aperture.physical_base || protocols.aperture_bytes
                != aperture.length || protocols.initial_offset
                != snapshot.extended_capabilities_offset || protocols.maximum_ports
                != snapshot.maximum_ports || protocols.root == 0 {
                Err(XhciRetentionError::ProtocolEvidenceMismatch)
            } else {
                match registers_fault(aperture, snapshot, bootstrap.journal.ranges@) {
                    Some(error) => Err(XhciRetentionError::ApertureBounds(error)),
                    None => {
                        let root = crate::seal::seal_of(
                            secret,
                            ready_words(
                                snapshot.snapshot_root,
                                authorization_root,
                                aperture,
                                ready,
                                protocols.root,
                            ),
                        );
                        if root == 0 {
                            Err(XhciRetentionError::InvalidRoot)
                        } else {
                            Ok(root)
                        }
                    },
                }
            },
        }
    }
}

pub fn validate_retained_controller(
    bootstrap: &XhciBootstrap,
    aperture: &Bar0ApertureLease,
    ready: &ReadyHalted,
    protocols: &SupportedProtocolEvidence,
    secret: u64,
) -> (result: Result<u64, XhciRetentionError>)
    ensures
        result == retained_controller(*bootstrap, *aperture, *ready, protocols@, secret),
{
    if secret == 0 {
        return Err(XhciRetentionError::InvalidRoot);
    }
    let snapshot = bootstrap.snapshot;
    let authorization_root: u64 = match retained_authorization_root(bootstrap) {
        Err(error) => {
            return Err(error);
        },
        Ok(root) => root,
    };
    if snapshot.address.segment != 0 || aperture.address.bus != snapshot.address.bus
        || aperture.address.slot != snapshot.address.slot || aperture.address.function
        != snapshot.address.function {
        return Err(XhciRetentionError::AddressMismatch);
    }
    if aperture.physical_base != snapshot.mmio_base || aperture.length
        != ready.measured_aperture_bytes {
        return Err(XhciRetentionError::ApertureEvidenceMismatch);
    }
    if protocols.aperture_base != aperture.physical_base || protocols.aperture_bytes
        != aperture.length || protocols.initial_offset != snapshot.extended_capabilities_offset
        || protocols.maximum_ports != snapshot.maximum_ports || protocols.root == 0 {
        return Err(XhciRetentionError::ProtocolEvidenceMismatch);
    }
    match check_registers(aperture, snapshot, bootstrap.journal.ranges.as_slice()) {
        Some(error) => {
            return Err(XhciRetentionError::ApertureBounds(error));
        },
        None => {},
    }
    let root: u64 = Sealer::new(secret).word(snapshot.snapshot_root).word(
        authorization_root,
    ).word(aperture.physical_base).word(aperture.length).word(ready.command as u64).word(
        ready.status as u64,
    ).word(flag(ready.legacy_handoff_performed)).word(ready.ports_observed as u64).word(
        protocols.root,
    ).root();
    if root == 0 {
        return Err(XhciRetentionError::InvalidRoot);
    }
    Ok(root)
}

#[derive(Clone, Copy, Debug, PartialEq, Eq, Structural)]
pub enum XhciDebtClass {
    RegisterAccess,
    Deadline,
    Timeout,
    HostControllerError,
    IllegalControllerState,
    ReadyHaltedInvariant,
    ApertureRequired,
    TerminalState,
    PciTransaction,
    ApertureBinding,
    Retention,
    StepCapacity,
    ProtocolEvidence,
}

impl XhciDebtClass {
    #[verifier::allow_in_spec]
    pub fn from_machine(class: TakeoverFaultClass) -> XhciDebtClass
        returns
            (match class {
                TakeoverFaultClass::RegisterAccess => XhciDebtClass::RegisterAccess,
                TakeoverFaultClass::Deadline => XhciDebtClass::Deadline,
                TakeoverFaultClass::Timeout => XhciDebtClass::Timeout,
                TakeoverFaultClass::HostControllerError => XhciDebtClass::HostControllerError,
                TakeoverFaultClass::IllegalControllerState => {
                    XhciDebtClass::IllegalControllerState
                },
                TakeoverFaultClass::ReadyHaltedInvariant => XhciDebtClass::ReadyHaltedInvariant,
                TakeoverFaultClass::MeasuredApertureRequired => XhciDebtClass::ApertureRequired,
                TakeoverFaultClass::TerminalState => XhciDebtClass::TerminalState,
            }),
    {
        match class {
            TakeoverFaultClass::RegisterAccess => XhciDebtClass::RegisterAccess,
            TakeoverFaultClass::Deadline => XhciDebtClass::Deadline,
            TakeoverFaultClass::Timeout => XhciDebtClass::Timeout,
            TakeoverFaultClass::HostControllerError => XhciDebtClass::HostControllerError,
            TakeoverFaultClass::IllegalControllerState => XhciDebtClass::IllegalControllerState,
            TakeoverFaultClass::ReadyHaltedInvariant => XhciDebtClass::ReadyHaltedInvariant,
            TakeoverFaultClass::MeasuredApertureRequired => XhciDebtClass::ApertureRequired,
            TakeoverFaultClass::TerminalState => XhciDebtClass::TerminalState,
        }
    }

    #[verifier::allow_in_spec]
    pub fn code(self) -> u64
        returns
            (match self {
                XhciDebtClass::RegisterAccess => 1u64,
                XhciDebtClass::Deadline => 2u64,
                XhciDebtClass::Timeout => 3u64,
                XhciDebtClass::HostControllerError => 4u64,
                XhciDebtClass::IllegalControllerState => 5u64,
                XhciDebtClass::ReadyHaltedInvariant => 6u64,
                XhciDebtClass::ApertureRequired => 7u64,
                XhciDebtClass::TerminalState => 8u64,
                XhciDebtClass::PciTransaction => 9u64,
                XhciDebtClass::ApertureBinding => 10u64,
                XhciDebtClass::Retention => 11u64,
                XhciDebtClass::StepCapacity => 12u64,
                XhciDebtClass::ProtocolEvidence => 13u64,
            }),
    {
        match self {
            XhciDebtClass::RegisterAccess => 1,
            XhciDebtClass::Deadline => 2,
            XhciDebtClass::Timeout => 3,
            XhciDebtClass::HostControllerError => 4,
            XhciDebtClass::IllegalControllerState => 5,
            XhciDebtClass::ReadyHaltedInvariant => 6,
            XhciDebtClass::ApertureRequired => 7,
            XhciDebtClass::TerminalState => 8,
            XhciDebtClass::PciTransaction => 9,
            XhciDebtClass::ApertureBinding => 10,
            XhciDebtClass::Retention => 11,
            XhciDebtClass::StepCapacity => 12,
            XhciDebtClass::ProtocolEvidence => 13,
        }
    }
}

/// The words that a debt root seals.
pub open spec fn debt_words(
    snapshot_root: u64,
    authorization_root: u64,
    aperture: Option<Bar0ApertureLease>,
    phase: TakeoverPhase,
    fault_class: XhciDebtClass,
) -> Seq<u64> {
    let head = seq![snapshot_root, authorization_root, phase.code(), fault_class.code()];
    match aperture {
        Some(lease) => head.push(lease.physical_base).push(lease.length),
        None => head,
    }
}

/// The root of a debt.
pub open spec fn debt_root_of(
    bootstrap: XhciBootstrap,
    aperture: Option<Bar0ApertureLease>,
    phase: TakeoverPhase,
    fault_class: XhciDebtClass,
    secret: u64,
) -> Result<u64, XhciRetentionError> {
    if secret == 0 {
        Err(XhciRetentionError::InvalidRoot)
    } else {
        match retained_authorization(bootstrap.authorization, bootstrap.snapshot) {
            Err(error) => Err(error),
            Ok(authorization_root) => {
                let root = crate::seal::seal_of(
                    secret,
                    debt_words(
                        bootstrap.snapshot.snapshot_root,
                        authorization_root,
                        aperture,
                        phase,
                        fault_class,
                    ),
                );
                if root == 0 {
                    Err(XhciRetentionError::InvalidRoot)
                } else {
                    Ok(root)
                }
            },
        }
    }
}

fn mutation_debt_root(
    bootstrap: &XhciBootstrap,
    aperture: &Option<Bar0ApertureLease>,
    phase: TakeoverPhase,
    fault_class: XhciDebtClass,
    secret: u64,
) -> (result: Result<u64, XhciRetentionError>)
    ensures
        result == debt_root_of(*bootstrap, *aperture, phase, fault_class, secret),
{
    if secret == 0 {
        return Err(XhciRetentionError::InvalidRoot);
    }
    let authorization_root: u64 = match retained_authorization_root(bootstrap) {
        Err(error) => {
            return Err(error);
        },
        Ok(root) => root,
    };
    let head = Sealer::new(secret).word(bootstrap.snapshot.snapshot_root).word(
        authorization_root,
    ).word(phase.code()).word(fault_class.code());
    let root: u64 = match aperture {
        Some(lease) => head.word(lease.physical_base).word(lease.length).root(),
        None => head.root(),
    };
    if root == 0 {
        return Err(XhciRetentionError::InvalidRoot);
    }
    Ok(root)
}

/// A controller that was touched and could not be made ready.
pub struct XhciMutationDebt {
    pub bootstrap: XhciBootstrap,
    pub aperture: Option<Bar0ApertureLease>,
    pub phase: TakeoverPhase,
    pub fault_class: XhciDebtClass,
    pub debt_root: u64,
}

impl XhciMutationDebt {
    pub fn retain(
        bootstrap: XhciBootstrap,
        aperture: Option<Bar0ApertureLease>,
        phase: TakeoverPhase,
        fault_class: XhciDebtClass,
        secret: u64,
    ) -> (result: Result<Self, XhciRetentionError>)
        ensures
            match debt_root_of(bootstrap, aperture, phase, fault_class, secret) {
                Ok(debt_root) => result == Ok::<XhciMutationDebt, XhciRetentionError>(
                    XhciMutationDebt { bootstrap, aperture, phase, fault_class, debt_root },
                ),
                Err(error) => result == Err::<XhciMutationDebt, _>(error),
            },
    {
        match mutation_debt_root(&bootstrap, &aperture, phase, fault_class, secret) {
            Err(error) => Err(error),
            Ok(debt_root) => Ok(
                XhciMutationDebt { bootstrap, aperture, phase, fault_class, debt_root },
            ),
        }
    }

    #[verifier::allow_in_spec]
    pub fn snapshot(&self) -> XhciCapabilitySnapshot
        returns
            self.bootstrap.snapshot,
    {
        self.bootstrap.snapshot
    }

    /// The debt root as it is computed anew, or zero where it no longer agrees.
    pub open spec fn proven_root(self, secret: u64) -> u64 {
        match debt_root_of(
            self.bootstrap,
            self.aperture,
            self.phase,
            self.fault_class,
            secret,
        ) {
            Ok(root) => if root == self.debt_root {
                root
            } else {
                0
            },
            Err(_) => 0,
        }
    }

    pub fn debt_root(&self, secret: u64) -> (root: u64)
        ensures
            root == self.proven_root(secret),
    {
        match mutation_debt_root(
            &self.bootstrap,
            &self.aperture,
            self.phase,
            self.fault_class,
            secret,
        ) {
            Err(_) => 0,
            Ok(root) => if root != self.debt_root {
                0
            } else {
                root
            },
        }
    }
}

/// A debt proves its root under the secret that it was retained with.
pub proof fn law_a_retained_debt_proves_its_root(
    bootstrap: XhciBootstrap,
    aperture: Option<Bar0ApertureLease>,
    phase: TakeoverPhase,
    fault_class: XhciDebtClass,
    secret: u64,
    debt_root: u64,
)
    requires
        debt_root_of(bootstrap, aperture, phase, fault_class, secret) == Ok::<
            u64,
            XhciRetentionError,
        >(debt_root),
    ensures
        (XhciMutationDebt { bootstrap, aperture, phase, fault_class, debt_root }).proven_root(
            secret,
        ) == debt_root,
        debt_root != 0,
{
}

/// A debt proves nothing under another secret.
pub proof fn law_a_debt_is_bound_to_its_secret(debt: XhciMutationDebt, secret: u64, other: u64)
    requires
        debt.proven_root(secret) != 0,
        other != secret,
    ensures
        debt.proven_root(other) == 0,
{
    match retained_authorization(debt.bootstrap.authorization, debt.bootstrap.snapshot) {
        Ok(authorization_root) => {
            crate::seal::law_root_binds_the_seed(
                secret,
                other,
                debt_words(
                    debt.bootstrap.snapshot.snapshot_root,
                    authorization_root,
                    debt.aperture,
                    debt.phase,
                    debt.fault_class,
                ),
            );
        },
        Err(_) => {},
    }
}

#[derive(Clone, Copy, Debug, PartialEq, Eq, Structural)]
pub enum XhciRegisterError {
    AddressOverflow,
    InvalidRangeLength(usize),
    OutsideBootstrapContainment,
    OutsideMeasuredAperture(BarApertureBoundsError),
    Mmio(MmioAccessError),
    Unmap(i32),
}

#[verifier::allow_in_spec]
pub fn register_fault(fault: MmioFault) -> XhciRegisterError
    returns
        (match fault {
            MmioFault::Access(error) => XhciRegisterError::Mmio(error),
            MmioFault::Unmap(status) => XhciRegisterError::Unmap(status),
        }),
{
    match fault {
        MmioFault::Access(error) => XhciRegisterError::Mmio(error),
        MmioFault::Unmap(status) => XhciRegisterError::Unmap(status),
    }
}

/// What bounds register accesses: a fixed stretch before the aperture is
/// measured, the leased aperture after.
pub enum RegisterBoundary<'a> {
    Bootstrap { physical_base: u64, containment_bytes: u64 },
    Measured(&'a Bar0ApertureLease),
}

/// Where a register of some length stands, if it lies inside the boundary.
pub open spec fn bounded_register(
    boundary: RegisterBoundary<'_>,
    offset: u32,
    length: usize,
) -> Result<u64, XhciRegisterError> {
    match boundary {
        RegisterBoundary::Bootstrap { physical_base, containment_bytes } => if offset + length
            > u64::MAX {
            Err(XhciRegisterError::AddressOverflow)
        } else if offset + length > containment_bytes {
            Err(XhciRegisterError::OutsideBootstrapContainment)
        } else if physical_base + offset > u64::MAX {
            Err(XhciRegisterError::AddressOverflow)
        } else {
            Ok((physical_base + offset) as u64)
        },
        RegisterBoundary::Measured(aperture) => match aperture.checked_range(
            offset as u64,
            length,
        ) {
            Ok(range) => Ok(range.physical_address),
            Err(error) => Err(XhciRegisterError::OutsideMeasuredAperture(error)),
        },
    }
}

/// Maps exactly one register at a time, inside its boundary.
pub struct XhciRegisterTransport<'a> {
    pub boundary: RegisterBoundary<'a>,
}

/// A bounded register access, by the transcript.
pub open spec fn register_run(
    boundary: RegisterBoundary<'_>,
    offset: u32,
    access: RegisterAccess,
    log: Seq<crate::mmio::MmioEvent>,
    at: int,
) -> Option<(Result<u32, XhciRegisterError>, int)> {
    match bounded_register(boundary, offset, access.length()) {
        Err(error) => Some((Err(error), at)),
        Ok(physical) => match crate::mmio::access_run(physical, access, log, at) {
            None => None,
            Some((Ok(word), after)) => Some((Ok(word), after)),
            Some((Err(fault), after)) => Some((Err(register_fault(fault)), after)),
        },
    }
}

impl<'a> XhciRegisterTransport<'a> {
    pub fn bootstrap(controller: &XhciBootstrap) -> (transport: XhciRegisterTransport<'static>)
        ensures
            transport.boundary == (RegisterBoundary::Bootstrap {
                physical_base: controller.snapshot.mmio_base,
                containment_bytes: XHCI_BOOTSTRAP_CONTAINMENT_BYTES,
            }),
    {
        XhciRegisterTransport {
            boundary: RegisterBoundary::Bootstrap {
                physical_base: controller.snapshot.mmio_base,
                containment_bytes: XHCI_BOOTSTRAP_CONTAINMENT_BYTES,
            },
        }
    }

    pub fn measured(aperture: &'a Bar0ApertureLease) -> (transport: Self)
        ensures
            transport.boundary == RegisterBoundary::Measured(aperture),
    {
        XhciRegisterTransport { boundary: RegisterBoundary::Measured(aperture) }
    }

    pub fn physical_range(&self, offset: u32, length: usize) -> (result: Result<
        u64,
        XhciRegisterError,
    >)
        ensures
            result == bounded_register(self.boundary, offset, length),
    {
        match &self.boundary {
            RegisterBoundary::Bootstrap { physical_base, containment_bytes } => {
                let end: u64 = match (offset as u64).checked_add(length as u64) {
                    None => {
                        return Err(XhciRegisterError::AddressOverflow);
                    },
                    Some(end) => end,
                };
                if end > *containment_bytes {
                    return Err(XhciRegisterError::OutsideBootstrapContainment);
                }
                match physical_base.checked_add(offset as u64) {
                    None => Err(XhciRegisterError::AddressOverflow),
                    Some(physical) => Ok(physical),
                }
            },
            RegisterBoundary::Measured(aperture) => match aperture.checked_range(
                offset as u64,
                length,
            ) {
                Ok(range) => Ok(range.physical_address),
                Err(error) => Err(XhciRegisterError::OutsideMeasuredAperture(error)),
            },
        }
    }

    /// Performs one access to a register inside the boundary.
    pub fn with_window<W: RegisterWindow>(
        &self,
        offset: u32,
        access: RegisterAccess,
        trace: &mut MmioTrace<W>,
    ) -> (result: Result<u32, XhciRegisterError>)
        ensures
            crate::trace::continues(final(trace).log(), old(trace).log()),
            forall|log: Seq<crate::mmio::MmioEvent>| #[trigger]
                crate::trace::continues(log, final(trace).log()) ==> register_run(
                    self.boundary,
                    offset,
                    access,
                    log,
                    old(trace).log().len() as int,
                ) == Some((result, final(trace).log().len() as int)),
    {
        match self.physical_range(offset, access.length()) {
            Err(error) => Err(error),
            Ok(physical) => match trace.with_window(physical, access) {
                Ok(word) => Ok(word),
                Err(fault) => Err(register_fault(fault)),
            },
        }
    }

    pub fn read8<W: RegisterWindow>(&self, offset: u32, trace: &mut MmioTrace<W>) -> (result:
        Result<u8, XhciRegisterError>)
        ensures
            crate::trace::continues(final(trace).log(), old(trace).log()),
            forall|log: Seq<crate::mmio::MmioEvent>| #[trigger]
                crate::trace::continues(log, final(trace).log()) ==> match register_run(
                    self.boundary,
                    offset,
                    RegisterAccess::Read8,
                    log,
                    old(trace).log().len() as int,
                ) {
                    Some((Ok(word), after)) => result == Ok::<u8, XhciRegisterError>(word as u8)
                        && after == final(trace).log().len(),
                    Some((Err(error), after)) => result == Err::<u8, _>(error) && after
                        == final(trace).log().len(),
                    None => false,
                },
    {
        match self.with_window(offset, RegisterAccess::Read8, trace) {
            Ok(word) => Ok(word as u8),
            Err(error) => Err(error),
        }
    }

    pub fn write8<W: RegisterWindow>(
        &self,
        offset: u32,
        value: u8,
        trace: &mut MmioTrace<W>,
    ) -> (result: Result<(), XhciRegisterError>)
        ensures
            crate::trace::continues(final(trace).log(), old(trace).log()),
            forall|log: Seq<crate::mmio::MmioEvent>| #[trigger]
                crate::trace::continues(log, final(trace).log()) ==> match register_run(
                    self.boundary,
                    offset,
                    RegisterAccess::Write8(value),
                    log,
                    old(trace).log().len() as int,
                ) {
                    Some((Ok(_), after)) => result is Ok && after == final(trace).log().len(),
                    Some((Err(error), after)) => result == Err::<(), _>(error) && after
                        == final(trace).log().len(),
                    None => false,
                },
    {
        match self.with_window(offset, RegisterAccess::Write8(value), trace) {
            Ok(_) => Ok(()),
            Err(error) => Err(error),
        }
    }

    pub fn read32<W: RegisterWindow>(&self, offset: u32, trace: &mut MmioTrace<W>) -> (result:
        Result<u32, XhciRegisterError>)
        ensures
            crate::trace::continues(final(trace).log(), old(trace).log()),
            forall|log: Seq<crate::mmio::MmioEvent>| #[trigger]
                crate::trace::continues(log, final(trace).log()) ==> register_run(
                    self.boundary,
                    offset,
                    RegisterAccess::Read32,
                    log,
                    old(trace).log().len() as int,
                ) == Some((result, final(trace).log().len() as int)),
    {
        self.with_window(offset, RegisterAccess::Read32, trace)
    }

    pub fn write32<W: RegisterWindow>(
        &self,
        offset: u32,
        value: u32,
        trace: &mut MmioTrace<W>,
    ) -> (result: Result<(), XhciRegisterError>)
        ensures
            crate::trace::continues(final(trace).log(), old(trace).log()),
            forall|log: Seq<crate::mmio::MmioEvent>| #[trigger]
                crate::trace::continues(log, final(trace).log()) ==> match register_run(
                    self.boundary,
                    offset,
                    RegisterAccess::Write32(value),
                    log,
                    old(trace).log().len() as int,
                ) {
                    Some((Ok(_), after)) => result is Ok && after == final(trace).log().len(),
                    Some((Err(error), after)) => result == Err::<(), _>(error) && after
                        == final(trace).log().len(),
                    None => false,
                },
    {
        match self.with_window(offset, RegisterAccess::Write32(value), trace) {
            Ok(_) => Ok(()),
            Err(error) => Err(error),
        }
    }
}

/// The protocol decoder's transport: one mapping for each dword.
pub struct XhciProtocolReader<W: RegisterWindow> {
    pub trace: MmioTrace<W>,
    pub asked: Ghost<Seq<DwordRead<XhciRegisterError>>>,
}

impl<W: RegisterWindow> XhciProtocolReader<W> {
    pub fn new(trace: MmioTrace<W>) -> (reader: Self)
        ensures
            reader.trace == trace,
            reader.history() == Seq::<DwordRead<XhciRegisterError>>::empty(),
    {
        XhciProtocolReader { trace, asked: Ghost(Seq::empty()) }
    }
}

impl<W: RegisterWindow> CheckedSupportedProtocolRead for XhciProtocolReader<W> {
    type Error = XhciRegisterError;

    open spec fn history(&self) -> Seq<DwordRead<XhciRegisterError>> {
        self.asked@
    }

    fn read_u32(&mut self, range: Bar0ApertureRange) -> (result: Result<u32, XhciRegisterError>)
        ensures
            range.length != 4 ==> result == Err::<u32, _>(
                XhciRegisterError::InvalidRangeLength(range.length),
            ) && final(self).trace.log() == old(self).trace.log(),
            range.length == 4 ==> crate::trace::continues(
                final(self).trace.log(),
                old(self).trace.log(),
            ) && forall|log: Seq<crate::mmio::MmioEvent>| #[trigger]
                crate::trace::continues(
                    log,
                    final(self).trace.log(),
                ) ==> match crate::mmio::access_run(
                    range.physical_address,
                    RegisterAccess::Read32,
                    log,
                    old(self).trace.log().len() as int,
                ) {
                    Some((Ok(word), after)) => result == Ok::<u32, XhciRegisterError>(word)
                        && after == final(self).trace.log().len(),
                    Some((Err(fault), after)) => result == Err::<u32, _>(register_fault(fault))
                        && after == final(self).trace.log().len(),
                    None => false,
                },
    {
        let reply = if range.length != 4 {
            Err(XhciRegisterError::InvalidRangeLength(range.length))
        } else {
            match self.trace.with_window(range.physical_address, RegisterAccess::Read32) {
                Ok(word) => Ok(word),
                Err(fault) => Err(register_fault(fault)),
            }
        };
        proof {
            self.asked@ = self.asked@.push(DwordRead { range, reply });
        }
        reply
    }
}

/// Every register that the boundary lets through lies inside it.
pub proof fn law_registers_stay_inside_the_boundary(
    boundary: RegisterBoundary<'_>,
    offset: u32,
    length: usize,
    physical: u64,
)
    requires
        bounded_register(boundary, offset, length) == Ok::<u64, XhciRegisterError>(physical),
    ensures
        match boundary {
            RegisterBoundary::Bootstrap { physical_base, containment_bytes } => physical_base
                <= physical && physical + length <= physical_base + containment_bytes,
            RegisterBoundary::Measured(aperture) => aperture.physical_base <= physical && physical
                + length <= aperture.physical_base + aperture.length,
        },
{
}

pub const MAXIMUM_TAKEOVER_STEPS: u32 = 5_000_000;

/// What a takeover machine is set up with.
#[derive(Clone, Copy, Debug, PartialEq, Eq, Structural)]
pub struct TakeoverConfig {
    pub bootstrap_containment_bytes: u64,
    pub operational_offset: u32,
    pub legacy_support_offset: Option<u32>,
    pub maximum_ports: u8,
}

#[verifier::allow_in_spec]
pub fn takeover_config(snapshot: XhciCapabilitySnapshot) -> TakeoverConfig
    returns
        (TakeoverConfig {
            bootstrap_containment_bytes: XHCI_BOOTSTRAP_CONTAINMENT_BYTES,
            operational_offset: snapshot.capability_length as u32,
            legacy_support_offset: if snapshot.legacy_support_offset != 0 {
                Some(snapshot.legacy_support_offset)
            } else {
                None::<u32>
            },
            maximum_ports: snapshot.maximum_ports,
        }),
{
    TakeoverConfig {
        bootstrap_containment_bytes: XHCI_BOOTSTRAP_CONTAINMENT_BYTES,
        operational_offset: snapshot.capability_length as u32,
        legacy_support_offset: if snapshot.legacy_support_offset != 0 {
            Some(snapshot.legacy_support_offset)
        } else {
            None
        },
        maximum_ports: snapshot.maximum_ports,
    }
}

/// The machine that takes a controller over, and the BAR probe beside it.
pub trait TakeoverHost {
    type Error;

    /// All that the machine was asked and answered.
    open spec fn history(&self) -> Seq<TakeoverEvent<Self::Error>> {
        arbitrary()
    }

    fn configure(&mut self, config: TakeoverConfig) -> (reply: Result<(), Self::Error>)
        ensures
            final(self).history() == old(self).history().push(
                TakeoverEvent::Configure { config, refused: crate::trace::refusal(reply) },
            ),
    ;

    fn phase(&mut self) -> (phase: TakeoverPhase)
        ensures
            final(self).history() == old(self).history().push(TakeoverEvent::Phase(phase)),
    ;

    /// Measures BAR0 of a quiescent function, unless the function cannot be
    /// probed at all.
    fn measure(&mut self, device: PciDevice) -> (reply: Result<
        Option<Bar0ApertureLease>,
        Self::Error,
    >)
        ensures
            final(self).history() == old(self).history().push(
                TakeoverEvent::Measure { device, reply },
            ),
    ;

    fn bind(&mut self, length: u64) -> (reply: Result<(), Self::Error>)
        ensures
            final(self).history() == old(self).history().push(
                TakeoverEvent::Bind { length, refused: crate::trace::refusal(reply) },
            ),
    ;

    /// One step, which ends in readiness or not yet.
    fn step(&mut self, registers: XhciRegisterTransport<'_>) -> (reply: Result<
        Option<ReadyHalted>,
        TakeoverFaultClass,
    >)
        ensures
            final(self).history() == old(self).history().push(
                TakeoverEvent::Step { boundary: held_boundary(registers.boundary), reply },
            ),
    ;
}

/// A machine that is lent.
impl<H: TakeoverHost> TakeoverHost for &mut H {
    type Error = H::Error;

    open spec fn history(&self) -> Seq<TakeoverEvent<H::Error>> {
        (**self).history()
    }

    fn configure(&mut self, config: TakeoverConfig) -> (reply: Result<(), H::Error>) {
        (**self).configure(config)
    }

    fn phase(&mut self) -> (phase: TakeoverPhase) {
        (**self).phase()
    }

    fn measure(&mut self, device: PciDevice) -> (reply: Result<
        Option<Bar0ApertureLease>,
        H::Error,
    >) {
        (**self).measure(device)
    }

    fn bind(&mut self, length: u64) -> (reply: Result<(), H::Error>) {
        (**self).bind(length)
    }

    fn step(&mut self, registers: XhciRegisterTransport<'_>) -> (reply: Result<
        Option<ReadyHalted>,
        TakeoverFaultClass,
    >) {
        (**self).step(registers)
    }
}

/// What bounded the registers of a step.
pub enum StepBoundary {
    Bootstrap { physical_base: u64, containment_bytes: u64 },
    Measured(Bar0ApertureLease),
}

pub open spec fn held_boundary(boundary: RegisterBoundary<'_>) -> StepBoundary {
    match boundary {
        RegisterBoundary::Bootstrap {
            physical_base,
            containment_bytes,
        } => StepBoundary::Bootstrap {
            physical_base,
            containment_bytes,
        },
        RegisterBoundary::Measured(aperture) => StepBoundary::Measured(*aperture),
    }
}

/// What must bound the registers of a step: the measured lease once there is one,
/// and the containment of the bootstrap before.
pub open spec fn step_boundary(
    mmio_base: u64,
    aperture: Option<Bar0ApertureLease>,
) -> StepBoundary {
    match aperture {
        Some(measured) => StepBoundary::Measured(measured),
        None => StepBoundary::Bootstrap {
            physical_base: mmio_base,
            containment_bytes: XHCI_BOOTSTRAP_CONTAINMENT_BYTES,
        },
    }
}

/// One exchange with the machine.
pub enum TakeoverEvent<E> {
    Configure { config: TakeoverConfig, refused: Option<E> },
    Phase(TakeoverPhase),
    Measure { device: PciDevice, reply: Result<Option<Bar0ApertureLease>, E> },
    Bind { length: u64, refused: Option<E> },
    Step { boundary: StepBoundary, reply: Result<Option<ReadyHalted>, TakeoverFaultClass> },
}

/// The machine of a takeover. Its transcript is the history of the machine.
pub struct TakeoverTrace<H: TakeoverHost> {
    pub host: H,
}

impl<H: TakeoverHost> TakeoverTrace<H> {
    pub open spec fn log(&self) -> Seq<TakeoverEvent<H::Error>> {
        self.host.history()
    }

    pub fn new(host: H) -> (trace: Self)
        ensures
            trace.host == host,
    {
        TakeoverTrace { host }
    }

    fn configure(&mut self, config: TakeoverConfig) -> (refused: Option<H::Error>)
        ensures
            final(self).log() == old(self).log().push(
                TakeoverEvent::Configure { config, refused },
            ),
    {
        let refused = match self.host.configure(config) {
            Ok(()) => None,
            Err(error) => Some(error),
        };
        refused
    }

    fn phase(&mut self) -> (phase: TakeoverPhase)
        ensures
            final(self).log() == old(self).log().push(TakeoverEvent::Phase(phase)),
    {
        let phase = self.host.phase();
        phase
    }

    fn measure(&mut self, device: PciDevice) -> (reply: Result<
        Option<Bar0ApertureLease>,
        H::Error,
    >)
        ensures
            final(self).log() == old(self).log().push(TakeoverEvent::Measure { device, reply }),
    {
        let reply = self.host.measure(device);
        reply
    }

    fn bind(&mut self, length: u64) -> (refused: Option<H::Error>)
        ensures
            final(self).log() == old(self).log().push(TakeoverEvent::Bind { length, refused }),
    {
        let refused = match self.host.bind(length) {
            Ok(()) => None,
            Err(error) => Some(error),
        };
        refused
    }

    fn step(&mut self, bootstrap: &XhciBootstrap, aperture: &Option<Bar0ApertureLease>) -> (reply:
        Result<Option<ReadyHalted>, TakeoverFaultClass>)
        ensures
            final(self).log() == old(self).log().push(
                TakeoverEvent::Step {
                    boundary: step_boundary(bootstrap.snapshot.mmio_base, *aperture),
                    reply,
                },
            ),
    {
        let registers = match aperture {
            Some(measured) => XhciRegisterTransport::measured(measured),
            None => XhciRegisterTransport::bootstrap(bootstrap),
        };
        let reply = self.host.step(registers);
        reply
    }
}

#[derive(Debug, PartialEq, Eq)]
pub enum XhciActivationError<E, P> {
    InvalidTakeoverConfiguration(E),
    Machine { phase: TakeoverPhase, class: TakeoverFaultClass },
    InvalidPciEvidence,
    Pci(E),
    ApertureBinding(E),
    Protocol(SupportedProtocolError<P>),
    Retention(XhciRetentionError),
    StepCapacity,
}

/// How a takeover ended.
pub struct TakeoverEnd<E, P> {
    pub aperture: Option<Bar0ApertureLease>,
    pub mutated: bool,
    pub outcome: Result<ReadyHalted, (TakeoverPhase, XhciActivationError<E, P>)>,
}

/// The function as it is expected to answer while its BAR is probed.
#[verifier::allow_in_spec]
pub fn expected_device(address: PciAddress, evidence: PciFunctionEvidence) -> PciDevice
    returns
        (PciDevice {
            address,
            vendor_id: evidence.vendor_id,
            device_id: evidence.device_id,
            class_code: evidence.class_code,
            subclass: evidence.subclass,
            programming_interface: evidence.programming_interface,
            revision: evidence.revision,
            header_type: evidence.header_type,
            interrupt_line: evidence.interrupt_line,
            interrupt_pin: evidence.interrupt_pin,
            command: evidence.command,
            bar_count: evidence.bar_count,
            raw_bars: evidence.raw_bars,
        }),
{
    PciDevice {
        address,
        vendor_id: evidence.vendor_id,
        device_id: evidence.device_id,
        class_code: evidence.class_code,
        subclass: evidence.subclass,
        programming_interface: evidence.programming_interface,
        revision: evidence.revision,
        header_type: evidence.header_type,
        interrupt_line: evidence.interrupt_line,
        interrupt_pin: evidence.interrupt_pin,
        command: evidence.command,
        bar_count: evidence.bar_count,
        raw_bars: evidence.raw_bars,
    }
}

/// The legacy address of a controller, which only segment zero has.
#[verifier::allow_in_spec]
pub fn probed_address(address: DeviceAddress) -> Option<PciAddress>
    returns
        (if address.segment != 0 {
            None::<PciAddress>
        } else {
            PciAddress::new(address.bus, address.slot, address.function)
        }),
{
    if address.segment != 0 {
        return None;
    }
    PciAddress::new(address.bus, address.slot, address.function)
}

/// A takeover that was given up.
pub open spec fn abandoned<E, P>(
    aperture: Option<Bar0ApertureLease>,
    mutated: bool,
    phase: TakeoverPhase,
    error: XhciActivationError<E, P>,
) -> TakeoverEnd<E, P> {
    TakeoverEnd { aperture, mutated, outcome: Err((phase, error)) }
}

/// The measuring of the aperture, by the transcript: the lease that was bound,
/// or how the takeover ended.
pub open spec fn measure_run<E, P>(
    address: DeviceAddress,
    evidence: PciFunctionEvidence,
    aperture: Option<Bar0ApertureLease>,
    log: Seq<TakeoverEvent<E>>,
    at: int,
) -> Option<(Result<Bar0ApertureLease, TakeoverEnd<E, P>>, int)> {
    let waiting = TakeoverPhase::AwaitMeasuredAperture;
    match probed_address(address) {
        None => Some(
            (
                Err(abandoned(aperture, true, waiting, XhciActivationError::InvalidPciEvidence)),
                at,
            ),
        ),
        Some(legacy) => if 0 <= at < log.len() {
            match log[at] {
                TakeoverEvent::Measure { device, reply } => if device == expected_device(
                    legacy,
                    evidence,
                ) {
                    match reply {
                        Err(error) => Some(
                            (
                                Err(
                                    abandoned(
                                        aperture,
                                        true,
                                        waiting,
                                        XhciActivationError::Pci(error),
                                    ),
                                ),
                                at + 1,
                            ),
                        ),
                        Ok(None) => Some(
                            (
                                Err(
                                    abandoned(
                                        aperture,
                                        true,
                                        waiting,
                                        XhciActivationError::InvalidPciEvidence,
                                    ),
                                ),
                                at + 1,
                            ),
                        ),
                        Ok(Some(measured)) => bind_run(measured, log, at + 1),
                    }
                } else {
                    None
                },
                _ => None,
            }
        } else {
            None
        },
    }
}

/// The binding of a measured aperture, by the transcript.
pub open spec fn bind_run<E, P>(
    measured: Bar0ApertureLease,
    log: Seq<TakeoverEvent<E>>,
    at: int,
) -> Option<(Result<Bar0ApertureLease, TakeoverEnd<E, P>>, int)> {
    if 0 <= at < log.len() {
        match log[at] {
            TakeoverEvent::Bind { length, refused } => if length == measured.length {
                match refused {
                    None => Some((Ok(measured), at + 1)),
                    Some(error) => if at + 1 < log.len() {
                        match log[at + 1] {
                            TakeoverEvent::Phase(phase) => Some(
                                (
                                    Err(
                                        abandoned(
                                            Some(measured),
                                            true,
                                            phase,
                                            XhciActivationError::ApertureBinding(error),
                                        ),
                                    ),
                                    at + 2,
                                ),
                            ),
                            _ => None,
                        }
                    } else {
                        None
                    },
                }
            } else {
                None
            },
            _ => None,
        }
    } else {
        None
    }
}

fn measure_aperture<H: TakeoverHost, P>(
    bootstrap: &XhciBootstrap,
    aperture: Option<Bar0ApertureLease>,
    trace: &mut TakeoverTrace<H>,
) -> (result: Result<Bar0ApertureLease, TakeoverEnd<H::Error, P>>)
    ensures
        crate::trace::continues(final(trace).log(), old(trace).log()),
        forall|log: Seq<TakeoverEvent<H::Error>>| #[trigger]
            crate::trace::continues(log, final(trace).log()) ==> measure_run::<H::Error, P>(
                bootstrap.snapshot.address,
                bootstrap.evidence,
                aperture,
                log,
                old(trace).log().len() as int,
            ) == Some((result, final(trace).log().len() as int)),
{
    let ghost start = trace.log().len() as int;
    let waiting = TakeoverPhase::AwaitMeasuredAperture;
    let address = match probed_address(bootstrap.snapshot.address) {
        None => {
            return Err(
                TakeoverEnd {
                    aperture,
                    mutated: true,
                    outcome: Err((waiting, XhciActivationError::InvalidPciEvidence)),
                },
            );
        },
        Some(address) => address,
    };
    let reply = trace.measure(expected_device(address, bootstrap.evidence));
    assert(trace.log()[start] is Measure);
    let ghost one = trace.log();
    let measured = match reply {
        Err(error) => {
            return Err(
                TakeoverEnd {
                    aperture,
                    mutated: true,
                    outcome: Err((waiting, XhciActivationError::Pci(error))),
                },
            );
        },
        Ok(None) => {
            return Err(
                TakeoverEnd {
                    aperture,
                    mutated: true,
                    outcome: Err((waiting, XhciActivationError::InvalidPciEvidence)),
                },
            );
        },
        Ok(Some(measured)) => measured,
    };
    let bound = trace.bind(measured.length);
    assert(trace.log()[start] == one[start] && trace.log()[start + 1] is Bind);
    match bound {
        None => Ok(measured),
        Some(error) => {
            let ghost two = trace.log();
            let phase = trace.phase();
            assert(trace.log()[start] == one[start] && trace.log()[start + 1] == two[start + 1]
                && trace.log()[start + 2] is Phase);
            Err(
                TakeoverEnd {
                    aperture: Some(measured),
                    mutated: true,
                    outcome: Err((phase, XhciActivationError::ApertureBinding(error))),
                },
            )
        },
    }
}

/// A takeover, from a state on, by the transcript.
pub open spec fn takeover_run<E, P>(
    snapshot: XhciCapabilitySnapshot,
    evidence: PciFunctionEvidence,
    steps: int,
    aperture: Option<Bar0ApertureLease>,
    mutated: bool,
    log: Seq<TakeoverEvent<E>>,
    at: int,
) -> Option<(TakeoverEnd<E, P>, int)>
    decreases steps,
{
    if !(0 <= at < log.len()) {
        None
    } else {
        match log[at] {
            TakeoverEvent::Phase(phase) => if steps <= 0 {
                Some(
                    (
                        abandoned(aperture, mutated, phase, XhciActivationError::StepCapacity),
                        at + 1,
                    ),
                )
            } else if phase == TakeoverPhase::AwaitMeasuredAperture {
                match measure_run::<E, P>(snapshot.address, evidence, aperture, log, at + 1) {
                    None => None,
                    Some((Err(end), after)) => Some((end, after)),
                    Some((Ok(measured), after)) => takeover_run(
                        snapshot,
                        evidence,
                        steps - 1,
                        Some(measured),
                        true,
                        log,
                        after,
                    ),
                }
            } else if at + 1 < log.len() {
                let touched = mutated || phase.mutates();
                match log[at + 1] {
                    TakeoverEvent::Step { boundary, reply } => if boundary != step_boundary(
                        snapshot.mmio_base,
                        aperture,
                    ) {
                        None
                    } else {
                        match reply {
                            Err(class) => Some(
                                (
                                    abandoned(
                                        aperture,
                                        touched,
                                        phase,
                                        XhciActivationError::Machine { phase, class },
                                    ),
                                    at + 2,
                                ),
                            ),
                            Ok(Some(ready)) => Some(
                                (
                                    TakeoverEnd { aperture, mutated: touched, outcome: Ok(ready) },
                                    at + 2,
                                ),
                            ),
                            Ok(None) => takeover_run(
                                snapshot,
                                evidence,
                                steps - 1,
                                aperture,
                                touched,
                                log,
                                at + 2,
                            ),
                        }
                    },
                    _ => None,
                }
            } else {
                None
            },
            _ => None,
        }
    }
}

fn run_takeover<H: TakeoverHost, P>(
    bootstrap: &XhciBootstrap,
    trace: &mut TakeoverTrace<H>,
) -> (end: TakeoverEnd<H::Error, P>)
    ensures
        crate::trace::continues(final(trace).log(), old(trace).log()),
        forall|log: Seq<TakeoverEvent<H::Error>>| #[trigger]
            crate::trace::continues(log, final(trace).log()) ==> takeover_run::<H::Error, P>(
                bootstrap.snapshot,
                bootstrap.evidence,
                MAXIMUM_TAKEOVER_STEPS as int,
                None,
                false,
                log,
                old(trace).log().len() as int,
            ) == Some((end, final(trace).log().len() as int)),
{
    let mut aperture: Option<Bar0ApertureLease> = None;
    let mut mutated: bool = false;
    let mut steps: u32 = MAXIMUM_TAKEOVER_STEPS;
    while steps > 0
        invariant
            crate::trace::continues(trace.log(), old(trace).log()),
            forall|log: Seq<TakeoverEvent<H::Error>>| #[trigger]
                crate::trace::continues(log, trace.log()) ==> takeover_run::<H::Error, P>(
                    bootstrap.snapshot,
                    bootstrap.evidence,
                    MAXIMUM_TAKEOVER_STEPS as int,
                    None,
                    false,
                    log,
                    old(trace).log().len() as int,
                ) == takeover_run::<H::Error, P>(
                    bootstrap.snapshot,
                    bootstrap.evidence,
                    steps as int,
                    aperture,
                    mutated,
                    log,
                    trace.log().len() as int,
                ),
        decreases steps,
    {
        let ghost head = trace.log();
        let ghost at = head.len() as int;
        let phase = trace.phase();
        let ghost asked = trace.log();
        assert(asked[at] == TakeoverEvent::<H::Error>::Phase(phase));
        if phase == TakeoverPhase::AwaitMeasuredAperture {
            let measured = measure_aperture::<H, P>(bootstrap, aperture, trace);
            assert forall|log: Seq<TakeoverEvent<H::Error>>| #[trigger]
                crate::trace::continues(log, trace.log()) implies crate::trace::continues(
                log,
                head,
            ) && crate::trace::continues(log, asked) && log[at] == asked[at] by {}
            match measured {
                Err(end) => {
                    return end;
                },
                Ok(lease) => {
                    aperture = Some(lease);
                    mutated = true;
                },
            }
        } else {
            if phase.mutates() {
                mutated = true;
            }
            let reply = trace.step(bootstrap, &aperture);
            assert forall|log: Seq<TakeoverEvent<H::Error>>| #[trigger]
                crate::trace::continues(log, trace.log()) implies crate::trace::continues(
                log,
                head,
            ) && log[at] == asked[at] && log[at + 1] == trace.log()[at + 1] by {
                assert(trace.log()[at] == asked[at]);
            }
            assert(trace.log()[at + 1] is Step);
            match reply {
                Err(class) => {
                    return TakeoverEnd {
                        aperture,
                        mutated,
                        outcome: Err((phase, XhciActivationError::Machine { phase, class })),
                    };
                },
                Ok(Some(ready)) => {
                    return TakeoverEnd { aperture, mutated, outcome: Ok(ready) };
                },
                Ok(None) => {},
            }
        }
        steps = steps - 1;
    }
    let ghost head = trace.log();
    let phase = trace.phase();
    assert forall|log: Seq<TakeoverEvent<H::Error>>| #[trigger]
        crate::trace::continues(log, trace.log()) implies crate::trace::continues(log, head)
        && log[head.len() as int] == trace.log()[head.len() as int] by {}
    TakeoverEnd { aperture, mutated, outcome: Err((phase, XhciActivationError::StepCapacity)) }
}

/// A controller that was not made ready, with all that is held of it.
pub struct XhciActivationFailure<E, P> {
    pub bootstrap: XhciBootstrap,
    pub aperture: Option<Bar0ApertureLease>,
    pub phase: TakeoverPhase,
    pub error: XhciActivationError<E, P>,
    pub mutated: bool,
}

impl<E, P> XhciActivationFailure<E, P> {
    #[verifier::allow_in_spec]
    pub fn snapshot(&self) -> XhciCapabilitySnapshot
        returns
            self.bootstrap.snapshot,
    {
        self.bootstrap.snapshot
    }

    #[verifier::allow_in_spec]
    pub fn phase(&self) -> TakeoverPhase
        returns
            self.phase,
    {
        self.phase
    }

    pub fn error(&self) -> (error: &XhciActivationError<E, P>)
        ensures
            *error == self.error,
    {
        &self.error
    }

    #[verifier::allow_in_spec]
    pub fn mutated(&self) -> bool
        returns
            self.mutated,
    {
        self.mutated
    }

    #[verifier::allow_in_spec]
    pub fn debt_class(&self) -> XhciDebtClass
        returns
            (match &self.error {
                XhciActivationError::Machine { phase: _, class } => XhciDebtClass::from_machine(
                    *class,
                ),
                XhciActivationError::Pci(_) => XhciDebtClass::PciTransaction,
                XhciActivationError::InvalidPciEvidence => XhciDebtClass::PciTransaction,
                XhciActivationError::ApertureBinding(_) => XhciDebtClass::ApertureBinding,
                XhciActivationError::Protocol(_) => XhciDebtClass::ProtocolEvidence,
                XhciActivationError::Retention(_) => XhciDebtClass::Retention,
                XhciActivationError::StepCapacity => XhciDebtClass::StepCapacity,
                XhciActivationError::InvalidTakeoverConfiguration(_) => {
                    XhciDebtClass::IllegalControllerState
                },
            }),
    {
        match &self.error {
            XhciActivationError::Machine { phase: _, class } => XhciDebtClass::from_machine(
                *class,
            ),
            XhciActivationError::Pci(_) | XhciActivationError::InvalidPciEvidence => {
                XhciDebtClass::PciTransaction
            },
            XhciActivationError::ApertureBinding(_) => XhciDebtClass::ApertureBinding,
            XhciActivationError::Protocol(_) => XhciDebtClass::ProtocolEvidence,
            XhciActivationError::Retention(_) => XhciDebtClass::Retention,
            XhciActivationError::StepCapacity => XhciDebtClass::StepCapacity,
            XhciActivationError::InvalidTakeoverConfiguration(_) => {
                XhciDebtClass::IllegalControllerState
            },
        }
    }

    pub fn into_parts(self) -> (parts: (XhciBootstrap, Option<Bar0ApertureLease>))
        ensures
            parts.0 == self.bootstrap,
            parts.1 == self.aperture,
    {
        (self.bootstrap, self.aperture)
    }
}

/// The secret that seals the decoded protocols of a controller.
#[verifier::allow_in_spec]
pub fn protocol_secret(secret: u64) -> u64
    returns
        ((secret << 17) | (secret >> 47) | 1),
{
    (secret << 17) | (secret >> 47) | 1
}

/// How an activation ended.
pub struct ActivationEnd<E, P> {
    pub aperture: Option<Bar0ApertureLease>,
    pub mutated: bool,
    pub outcome: Result<
        (ReadyHalted, ProtocolFindings, u64),
        (TakeoverPhase, XhciActivationError<E, P>),
    >,
}

/// An activation that was given up.
pub open spec fn gave_up<E, P>(
    aperture: Option<Bar0ApertureLease>,
    mutated: bool,
    phase: TakeoverPhase,
    error: XhciActivationError<E, P>,
) -> ActivationEnd<E, P> {
    ActivationEnd { aperture, mutated, outcome: Err((phase, error)) }
}

/// What follows a takeover that measured its aperture and ended ready.
pub open spec fn retention_run<E, P>(
    bootstrap: XhciBootstrap,
    aperture: Bar0ApertureLease,
    ready: ReadyHalted,
    secret: u64,
    reads: Seq<DwordRead<P>>,
    at: int,
) -> Option<(ActivationEnd<E, P>, int)> {
    match crate::xhci_protocol::decode_run(
        aperture,
        bootstrap.snapshot.extended_capabilities_offset,
        bootstrap.snapshot.maximum_ports,
        protocol_secret(secret),
        reads,
        at,
    ) {
        None => None,
        Some((Err(error), after)) => Some(
            (
                gave_up(
                    Some(aperture),
                    true,
                    TakeoverPhase::ReadyHalted,
                    XhciActivationError::Protocol(error),
                ),
                after,
            ),
        ),
        Some((Ok(protocols), after)) => Some(
            (
                match retained_controller(bootstrap, aperture, ready, protocols, secret) {
                    Err(error) => gave_up(
                        Some(aperture),
                        true,
                        TakeoverPhase::ReadyHalted,
                        XhciActivationError::Retention(error),
                    ),
                    Ok(root) => ActivationEnd {
                        aperture: Some(aperture),
                        mutated: true,
                        outcome: Ok((ready, protocols, root)),
                    },
                },
                after,
            ),
        ),
    }
}

/// An activation, by the transcripts of the machine and of the registers.
pub open spec fn activation_run<E, P>(
    bootstrap: XhciBootstrap,
    secret: u64,
    log: Seq<TakeoverEvent<E>>,
    at: int,
    reads: Seq<DwordRead<P>>,
    read_at: int,
) -> Option<(ActivationEnd<E, P>, int, int)> {
    if !(0 <= at < log.len()) {
        None
    } else {
        match log[at] {
            TakeoverEvent::Configure { config, refused } => if config != takeover_config(
                bootstrap.snapshot,
            ) {
                None
            } else {
                match refused {
                    Some(error) => Some(
                        (
                            gave_up(
                                None,
                                false,
                                TakeoverPhase::Faulted,
                                XhciActivationError::InvalidTakeoverConfiguration(error),
                            ),
                            at + 1,
                            read_at,
                        ),
                    ),
                    None => match takeover_run::<E, P>(
                        bootstrap.snapshot,
                        bootstrap.evidence,
                        MAXIMUM_TAKEOVER_STEPS as int,
                        None,
                        false,
                        log,
                        at + 1,
                    ) {
                        None => None,
                        Some((end, after)) => match end.outcome {
                            Err((phase, error)) => Some(
                                (
                                    gave_up(end.aperture, end.mutated, phase, error),
                                    after,
                                    read_at,
                                ),
                            ),
                            Ok(ready) => match end.aperture {
                                None => Some(
                                    (
                                        gave_up(
                                            None,
                                            true,
                                            TakeoverPhase::ReadyHalted,
                                            XhciActivationError::StepCapacity,
                                        ),
                                        after,
                                        read_at,
                                    ),
                                ),
                                Some(aperture) => match retention_run::<E, P>(
                                    bootstrap,
                                    aperture,
                                    ready,
                                    secret,
                                    reads,
                                    read_at,
                                ) {
                                    None => None,
                                    Some((ended, read_after)) => Some((ended, after, read_after)),
                                },
                            },
                        },
                    },
                }
            },
            _ => None,
        }
    }
}

/// Whether a result tells how an activation ended.
pub open spec fn activation_ends_as<E, P>(
    bootstrap: XhciBootstrap,
    result: Result<XhciResetReadyController, XhciActivationFailure<E, P>>,
    end: ActivationEnd<E, P>,
) -> bool {
    match result {
        Ok(controller) => {
            &&& controller.bootstrap == bootstrap
            &&& end.aperture == Some(controller.aperture)
            &&& end.outcome == Ok::<_, (TakeoverPhase, XhciActivationError<E, P>)>(
                (controller.ready, controller.protocols@, controller.reset_ready_root),
            )
        },
        Err(failure) => {
            &&& failure.bootstrap == bootstrap
            &&& end.aperture == failure.aperture
            &&& end.mutated == failure.mutated
            &&& end.outcome == Err::<(ReadyHalted, ProtocolFindings, u64), _>(
                (failure.phase, failure.error),
            )
        },
    }
}

fn retain_ready<E, R: CheckedSupportedProtocolRead>(
    bootstrap: XhciBootstrap,
    aperture: Bar0ApertureLease,
    ready: ReadyHalted,
    secret: u64,
    registers: &mut ProtocolTrace<R>,
) -> (result: Result<XhciResetReadyController, XhciActivationFailure<E, R::Error>>)
    ensures
        crate::trace::continues(final(registers).log(), old(registers).log()),
        forall|reads: Seq<DwordRead<R::Error>>| #[trigger]
            crate::trace::continues(reads, final(registers).log()) ==> match retention_run::<
                E,
                R::Error,
            >(bootstrap, aperture, ready, secret, reads, old(registers).log().len() as int) {
                Some((end, after)) => activation_ends_as(bootstrap, result, end) && after
                    == final(registers).log().len(),
                None => false,
            },
{
    let protocols = match decode_supported_protocols(
        &aperture,
        bootstrap.snapshot.extended_capabilities_offset,
        bootstrap.snapshot.maximum_ports,
        protocol_secret(secret),
        registers,
    ) {
        Err(error) => {
            return Err(
                XhciActivationFailure {
                    bootstrap,
                    aperture: Some(aperture),
                    phase: TakeoverPhase::ReadyHalted,
                    error: XhciActivationError::Protocol(error),
                    mutated: true,
                },
            );
        },
        Ok(protocols) => protocols,
    };
    match validate_retained_controller(&bootstrap, &aperture, &ready, &protocols, secret) {
        Err(error) => Err(
            XhciActivationFailure {
                bootstrap,
                aperture: Some(aperture),
                phase: TakeoverPhase::ReadyHalted,
                error: XhciActivationError::Retention(error),
                mutated: true,
            },
        ),
        Ok(reset_ready_root) => Ok(
            XhciResetReadyController { bootstrap, aperture, ready, protocols, reset_ready_root },
        ),
    }
}

/// Takes a controller over up to a ready reset, in a bounded number of steps.
///
/// The aperture is measured only once the machine waits for it, and a controller
/// whose aperture was never measured is not ready.
pub fn activate_reset_ready<H: TakeoverHost, R: CheckedSupportedProtocolRead>(
    bootstrap: XhciBootstrap,
    host: &mut TakeoverTrace<H>,
    registers: &mut ProtocolTrace<R>,
    secret: u64,
) -> (result: Result<XhciResetReadyController, XhciActivationFailure<H::Error, R::Error>>)
    ensures
        crate::trace::continues(final(host).log(), old(host).log()),
        crate::trace::continues(final(registers).log(), old(registers).log()),
        forall|log: Seq<TakeoverEvent<H::Error>>, reads: Seq<DwordRead<R::Error>>|
            #![trigger crate::trace::continues(log, final(host).log()), crate::trace::continues(reads, final(registers).log())]
            crate::trace::continues(log, final(host).log()) && crate::trace::continues(
                reads,
                final(registers).log(),
            ) ==> match activation_run(
                bootstrap,
                secret,
                log,
                old(host).log().len() as int,
                reads,
                old(registers).log().len() as int,
            ) {
                Some((end, after, read_after)) => activation_ends_as(bootstrap, result, end)
                    && after == final(host).log().len() && read_after
                    == final(registers).log().len(),
                None => false,
            },
{
    let ghost start = host.log().len() as int;
    let refused = host.configure(takeover_config(bootstrap.snapshot));
    assert(host.log()[start] is Configure);
    match refused {
        Some(error) => {
            return Err(
                XhciActivationFailure {
                    bootstrap,
                    aperture: None,
                    phase: TakeoverPhase::Faulted,
                    error: XhciActivationError::InvalidTakeoverConfiguration(error),
                    mutated: false,
                },
            );
        },
        None => {},
    }
    let ghost configured = host.log();
    let end = run_takeover::<H, R::Error>(&bootstrap, host);
    assert forall|log: Seq<TakeoverEvent<H::Error>>| #[trigger]
        crate::trace::continues(log, host.log()) implies log[start] == configured[start] by {
        assert(host.log()[start] == configured[start]);
    }
    match end.outcome {
        Err((phase, error)) => Err(
            XhciActivationFailure {
                bootstrap,
                aperture: end.aperture,
                phase,
                error,
                mutated: end.mutated,
            },
        ),
        Ok(ready) => match end.aperture {
            None => Err(
                XhciActivationFailure {
                    bootstrap,
                    aperture: None,
                    phase: TakeoverPhase::ReadyHalted,
                    error: XhciActivationError::StepCapacity,
                    mutated: true,
                },
            ),
            Some(aperture) => retain_ready(bootstrap, aperture, ready, secret, registers),
        },
    }
}

/// A takeover holds an aperture only where it counts as having touched the
/// controller.
pub proof fn law_a_held_aperture_means_mutation<E, P>(
    snapshot: XhciCapabilitySnapshot,
    evidence: PciFunctionEvidence,
    steps: int,
    aperture: Option<Bar0ApertureLease>,
    mutated: bool,
    log: Seq<TakeoverEvent<E>>,
    at: int,
)
    requires
        aperture is Some ==> mutated,
    ensures
        takeover_run::<E, P>(snapshot, evidence, steps, aperture, mutated, log, at) matches Some(
            (end, _),
        ) ==> (end.aperture is Some ==> end.mutated),
    decreases steps,
{
    if 0 <= at < log.len() && steps > 0 {
        match log[at] {
            TakeoverEvent::Phase(phase) => {
                if phase == TakeoverPhase::AwaitMeasuredAperture {
                    match measure_run::<E, P>(snapshot.address, evidence, aperture, log, at + 1) {
                        Some((Ok(measured), after)) => {
                            law_a_held_aperture_means_mutation::<E, P>(
                                snapshot,
                                evidence,
                                steps - 1,
                                Some(measured),
                                true,
                                log,
                                after,
                            );
                        },
                        _ => {},
                    }
                } else {
                    law_a_held_aperture_means_mutation::<E, P>(
                        snapshot,
                        evidence,
                        steps - 1,
                        aperture,
                        mutated || phase.mutates(),
                        log,
                        at + 2,
                    );
                }
            },
            _ => {},
        }
    }
}

/// Once an aperture is measured, no step of a takeover is given registers beyond it:
/// the boundary of every later step is a measured lease.
pub proof fn law_steps_after_measuring_stay_in_the_lease<E, P>(
    snapshot: XhciCapabilitySnapshot,
    evidence: PciFunctionEvidence,
    steps: int,
    aperture: Bar0ApertureLease,
    mutated: bool,
    log: Seq<TakeoverEvent<E>>,
    at: int,
)
    ensures
        takeover_run::<E, P>(
            snapshot,
            evidence,
            steps,
            Some(aperture),
            mutated,
            log,
            at,
        ) matches Some((_, end)) ==> at < end && forall|i: int|
            at <= i < end ==> (#[trigger] log[i] matches TakeoverEvent::Step { boundary, .. }
                ==> boundary is Measured),
    decreases steps,
{
    if 0 <= at < log.len() && steps > 0 {
        match log[at] {
            TakeoverEvent::Phase(phase) => {
                if phase == TakeoverPhase::AwaitMeasuredAperture {
                    match measure_run::<E, P>(
                        snapshot.address,
                        evidence,
                        Some(aperture),
                        log,
                        at + 1,
                    ) {
                        Some((Ok(measured), after)) => {
                            law_steps_after_measuring_stay_in_the_lease::<E, P>(
                                snapshot,
                                evidence,
                                steps - 1,
                                measured,
                                true,
                                log,
                                after,
                            );
                        },
                        _ => {},
                    }
                } else {
                    law_steps_after_measuring_stay_in_the_lease::<E, P>(
                        snapshot,
                        evidence,
                        steps - 1,
                        aperture,
                        mutated || phase.mutates(),
                        log,
                        at + 2,
                    );
                }
            },
            _ => {},
        }
    }
}

/// A retained controller's evidence agrees: one address, one aperture, one port
/// count, and every register in use inside the aperture.
pub proof fn law_retained_evidence_agrees(
    bootstrap: XhciBootstrap,
    aperture: Bar0ApertureLease,
    ready: ReadyHalted,
    protocols: ProtocolFindings,
    secret: u64,
)
    requires
        retained_controller(bootstrap, aperture, ready, protocols, secret) is Ok,
    ensures
        bootstrap.authorization.address_of() == bootstrap.snapshot.address,
        bootstrap.snapshot.address.segment == 0,
        aperture.address.bus == bootstrap.snapshot.address.bus,
        aperture.address.slot == bootstrap.snapshot.address.slot,
        aperture.address.function == bootstrap.snapshot.address.function,
        aperture.physical_base == bootstrap.snapshot.mmio_base,
        aperture.length == ready.measured_aperture_bytes,
        protocols.aperture_base == aperture.physical_base,
        protocols.aperture_bytes == aperture.length,
        protocols.maximum_ports == bootstrap.snapshot.maximum_ports,
        CAPABILITY_BYTES <= aperture.length,
        bootstrap.snapshot.doorbell_offset + 4 <= aperture.length,
        bootstrap.snapshot.runtime_offset + 0x20 <= aperture.length,
        forall|i: int|
            0 <= i < bootstrap.journal.ranges@.len() ==> (
            #[trigger] bootstrap.journal.ranges@[i]).offset + bootstrap.journal.ranges@[i].length
                <= aperture.length,
{
    lemma_ranges_fit(aperture, bootstrap.journal.ranges@, 0);
}

proof fn lemma_ranges_fit(aperture: Bar0ApertureLease, ranges: Seq<BootstrapRange>, index: int)
    requires
        0 <= index,
        ranges_fault(aperture, ranges, index) is None,
    ensures
        forall|i: int|
            index <= i < ranges.len() ==> (#[trigger] ranges[i]).offset + ranges[i].length
                <= aperture.length,
    decreases ranges.len() - index,
{
    if index < ranges.len() {
        lemma_ranges_fit(aperture, ranges, index + 1);
    }
}

#[derive(Clone, Copy, Debug, PartialEq, Eq, Structural)]
pub struct XhciProbeSummary {
    pub controllers: usize,
    pub total_ports: usize,
    pub total_slots: usize,
    pub bootstrap_headers: usize,
    pub legacy_capable_controllers: usize,
    pub reset_ready_controllers: usize,
    pub mutation_debts: usize,
    pub measured_aperture_bytes: u64,
    pub supported_protocols: usize,
    pub usb2_ports: usize,
    pub usb3_ports: usize,
    pub root: u64,
}

/// What the census holds of a controller besides its snapshot.
pub enum RetainedController {
    ResetReady(XhciResetReadyController),
    MutationDebt(XhciMutationDebt),
}

/// One controller of the census.
pub struct XhciCensusEntry {
    pub snapshot: XhciCapabilitySnapshot,
    pub retained: Option<RetainedController>,
}

pub struct XhciProbeCensus {
    pub entries: Vec<XhciCensusEntry>,
    pub secret: u64,
}

/// Whether some controller is known at an address.
pub open spec fn address_known(entries: Seq<XhciCensusEntry>, address: DeviceAddress) -> bool {
    exists|i: int| 0 <= i < entries.len() && (#[trigger] entries[i]).snapshot.address == address
}

/// What an insertion does to the census.
pub open spec fn inserted(
    before: Seq<XhciCensusEntry>,
    entry: XhciCensusEntry,
    after: Seq<XhciCensusEntry>,
    result: Result<(), XhciProbeError>,
) -> bool {
    if address_known(before, entry.snapshot.address) {
        result == Err::<(), _>(XhciProbeError::DuplicateAddress) && after == before
    } else if before.len() >= MAXIMUM_XHCI_CONTROLLERS {
        result == Err::<(), _>(XhciProbeError::Capacity) && after == before
    } else {
        result is Ok && after == before.push(entry)
    }
}

/// The sum of the ports of a list of protocols.
pub open spec fn port_total(
    protocols: Seq<crate::xhci_protocol::SupportedProtocol>,
    kind: UsbProtocolKind,
) -> int
    decreases protocols.len(),
{
    if protocols.len() == 0 {
        0
    } else {
        port_total(protocols.drop_last(), kind) + if protocols.last().kind == kind {
            protocols.last().port_count as int
        } else {
            0
        }
    }
}

/// A count, or the largest that fits.
pub open spec fn saturated(total: int) -> usize {
    if total > usize::MAX {
        usize::MAX
    } else {
        total as usize
    }
}

fn count_ports(protocols: &SupportedProtocolEvidence, kind: UsbProtocolKind) -> (total: usize)
    ensures
        total == saturated(port_total(protocols.protocols@, kind)),
        0 <= port_total(protocols.protocols@, kind),
{
    let list = protocols.protocols();
    let mut total: usize = 0;
    let mut index: usize = 0;
    assert(list@.take(0) =~= Seq::<crate::xhci_protocol::SupportedProtocol>::empty());
    while index < list.len()
        invariant
            index <= list@.len(),
            0 <= port_total(list@.take(index as int), kind),
            total == saturated(port_total(list@.take(index as int), kind)),
        decreases list@.len() - index,
    {
        proof {
            assert(list@.take(index + 1).drop_last() =~= list@.take(index as int));
        }
        if list[index].kind == kind {
            total = total.saturating_add(list[index].port_count as usize);
        }
        index = index + 1;
    }
    assert(list@.take(index as int) =~= list@);
    total
}

/// The summary of a census of some size before its first controller.
pub open spec fn empty_summary(secret: u64, controllers: usize) -> XhciProbeSummary {
    XhciProbeSummary {
        controllers,
        total_ports: 0,
        total_slots: 0,
        bootstrap_headers: 0,
        legacy_capable_controllers: 0,
        reset_ready_controllers: 0,
        mutation_debts: 0,
        measured_aperture_bytes: 0,
        supported_protocols: 0,
        usb2_ports: 0,
        usb3_ports: 0,
        root: crate::seal::mix_of(secret, controllers as u64),
    }
}

/// The summary with what is retained of one more controller.
pub open spec fn with_retained(
    summary: XhciProbeSummary,
    retained: Option<RetainedController>,
    secret: u64,
) -> XhciProbeSummary {
    match retained {
        Some(RetainedController::ResetReady(controller)) => XhciProbeSummary {
            reset_ready_controllers: saturated(summary.reset_ready_controllers + 1),
            measured_aperture_bytes: if summary.measured_aperture_bytes
                + controller.aperture.length > u64::MAX {
                u64::MAX
            } else {
                (summary.measured_aperture_bytes + controller.aperture.length) as u64
            },
            supported_protocols: saturated(
                summary.supported_protocols + controller.protocols.protocols@.len() as u8,
            ),
            usb2_ports: saturated(
                summary.usb2_ports + port_total(
                    controller.protocols.protocols@,
                    UsbProtocolKind::Usb2,
                ),
            ),
            usb3_ports: saturated(
                summary.usb3_ports + port_total(
                    controller.protocols.protocols@,
                    UsbProtocolKind::Usb3,
                ),
            ),
            root: crate::seal::mix_of(summary.root, controller.reset_ready_root),
            ..summary
        },
        Some(RetainedController::MutationDebt(debt)) => XhciProbeSummary {
            mutation_debts: saturated(summary.mutation_debts + 1),
            root: crate::seal::mix_of(summary.root, debt.proven_root(secret)),
            ..summary
        },
        None => summary,
    }
}

/// The summary with one more controller.
pub open spec fn with_controller(
    summary: XhciProbeSummary,
    entry: XhciCensusEntry,
    secret: u64,
) -> XhciProbeSummary {
    let counted = with_retained(
        XhciProbeSummary {
            total_ports: saturated(summary.total_ports + entry.snapshot.maximum_ports),
            total_slots: saturated(summary.total_slots + entry.snapshot.maximum_device_slots),
            bootstrap_headers: saturated(
                summary.bootstrap_headers + entry.snapshot.bootstrap_header_count,
            ),
            legacy_capable_controllers: saturated(
                summary.legacy_capable_controllers + if entry.snapshot.legacy_support_offset != 0 {
                    1int
                } else {
                    0int
                },
            ),
            ..summary
        },
        entry.retained,
        secret,
    );
    XhciProbeSummary {
        root: crate::seal::mix_of(counted.root, entry.snapshot.snapshot_root),
        ..counted
    }
}

/// The summary of a census, as far as its first controllers.
pub open spec fn summary_of(
    secret: u64,
    controllers: usize,
    entries: Seq<XhciCensusEntry>,
) -> XhciProbeSummary
    decreases entries.len(),
{
    if entries.len() == 0 {
        empty_summary(secret, controllers)
    } else {
        with_controller(
            summary_of(secret, controllers, entries.drop_last()),
            entries.last(),
            secret,
        )
    }
}

fn sum_retained(
    summary: XhciProbeSummary,
    retained: &Option<RetainedController>,
    secret: u64,
) -> (sum: XhciProbeSummary)
    ensures
        sum == with_retained(summary, *retained, secret),
{
    let mut sum = summary;
    match retained {
        Some(RetainedController::ResetReady(controller)) => {
            sum.reset_ready_controllers = sum.reset_ready_controllers.saturating_add(1);
            sum.measured_aperture_bytes = sum.measured_aperture_bytes.saturating_add(
                controller.aperture.length,
            );
            sum.supported_protocols = sum.supported_protocols.saturating_add(
                controller.protocols.protocol_count() as usize,
            );
            sum.usb2_ports = sum.usb2_ports.saturating_add(
                count_ports(&controller.protocols, UsbProtocolKind::Usb2),
            );
            sum.usb3_ports = sum.usb3_ports.saturating_add(
                count_ports(&controller.protocols, UsbProtocolKind::Usb3),
            );
            sum.root = mix(sum.root, controller.reset_ready_root);
        },
        Some(RetainedController::MutationDebt(debt)) => {
            sum.mutation_debts = sum.mutation_debts.saturating_add(1);
            sum.root = mix(sum.root, debt.debt_root(secret));
        },
        None => {},
    }
    sum
}

/// The place of the controller at an address.
pub open spec fn place_of(
    entries: Seq<XhciCensusEntry>,
    address: DeviceAddress,
    from: int,
) -> Option<
    int,
>
    decreases entries.len() - from,
{
    if from < 0 || from >= entries.len() {
        None
    } else if entries[from].snapshot.address == address {
        Some(from)
    } else {
        place_of(entries, address, from + 1)
    }
}

impl XhciProbeCensus {
    pub fn new(secret: u64) -> (result: Result<Self, XhciProbeError>)
        ensures
            match result {
                Ok(census) => secret != 0 && census.secret == secret && census.entries@
                    == Seq::<XhciCensusEntry>::empty(),
                Err(error) => secret == 0 && error == XhciProbeError::InvalidSecret,
            },
    {
        if secret == 0 {
            return Err(XhciProbeError::InvalidSecret);
        }
        Ok(XhciProbeCensus { entries: Vec::new(), secret })
    }

    fn find(&self, address: DeviceAddress) -> (place: Option<usize>)
        ensures
            place_of(self.entries@, address, 0) == (match place {
                Some(index) => Some(index as int),
                None => None::<int>,
            }),
            match place {
                Some(index) => index < self.entries@.len()
                    && self.entries@[index as int].snapshot.address == address,
                None => !address_known(self.entries@, address),
            },
    {
        let mut index: usize = 0;
        while index < self.entries.len()
            invariant
                index <= self.entries@.len(),
                place_of(self.entries@, address, 0) == place_of(
                    self.entries@,
                    address,
                    index as int,
                ),
                forall|i: int|
                    0 <= i < index ==> (#[trigger] self.entries@[i]).snapshot.address != address,
            decreases self.entries@.len() - index,
        {
            if self.entries[index].snapshot.address == address {
                return Some(index);
            }
            index = index + 1;
        }
        None
    }

    fn insert_snapshot(
        &mut self,
        snapshot: XhciCapabilitySnapshot,
        retained: Option<RetainedController>,
    ) -> (result: Result<(), XhciProbeError>)
        ensures
            final(self).secret == old(self).secret,
            inserted(
                old(self).entries@,
                XhciCensusEntry { snapshot, retained },
                final(self).entries@,
                result,
            ),
    {
        match self.find(snapshot.address) {
            Some(index) => {
                assert(address_known(self.entries@, snapshot.address)) by {
                    assert(self.entries@[index as int].snapshot.address == snapshot.address);
                }
                return Err(XhciProbeError::DuplicateAddress);
            },
            None => {},
        }
        if self.entries.len() >= MAXIMUM_XHCI_CONTROLLERS {
            return Err(XhciProbeError::Capacity);
        }
        self.entries.push(XhciCensusEntry { snapshot, retained });
        Ok(())
    }

    pub fn insert(&mut self, snapshot: XhciCapabilitySnapshot) -> (result: Result<
        (),
        XhciProbeError,
    >)
        ensures
            final(self).secret == old(self).secret,
            inserted(
                old(self).entries@,
                XhciCensusEntry { snapshot, retained: None },
                final(self).entries@,
                result,
            ),
    {
        self.insert_snapshot(snapshot, None)
    }

    pub fn insert_reset_ready(&mut self, controller: XhciResetReadyController) -> (result: Result<
        (),
        XhciProbeError,
    >)
        ensures
            final(self).secret == old(self).secret,
            inserted(
                old(self).entries@,
                XhciCensusEntry {
                    snapshot: controller.bootstrap.snapshot,
                    retained: Some(RetainedController::ResetReady(controller)),
                },
                final(self).entries@,
                result,
            ),
    {
        let snapshot = controller.snapshot();
        self.insert_snapshot(snapshot, Some(RetainedController::ResetReady(controller)))
    }

    pub fn insert_mutation_debt(&mut self, debt: XhciMutationDebt) -> (result: Result<
        (),
        XhciProbeError,
    >)
        ensures
            final(self).secret == old(self).secret,
            inserted(
                old(self).entries@,
                XhciCensusEntry {
                    snapshot: debt.bootstrap.snapshot,
                    retained: Some(RetainedController::MutationDebt(debt)),
                },
                final(self).entries@,
                result,
            ),
    {
        let snapshot = debt.snapshot();
        self.insert_snapshot(snapshot, Some(RetainedController::MutationDebt(debt)))
    }

    pub fn snapshots(&self) -> (snapshots: Vec<XhciCapabilitySnapshot>)
        ensures
            snapshots@.len() == self.entries@.len(),
            forall|i: int|
                0 <= i < self.entries@.len() ==> #[trigger] snapshots@[i]
                    == self.entries@[i].snapshot,
    {
        let mut snapshots: Vec<XhciCapabilitySnapshot> = Vec::new();
        let mut index: usize = 0;
        while index < self.entries.len()
            invariant
                index <= self.entries@.len(),
                snapshots@.len() == index,
                forall|i: int|
                    0 <= i < index ==> #[trigger] snapshots@[i] == self.entries@[i].snapshot,
            decreases self.entries@.len() - index,
        {
            snapshots.push(self.entries[index].snapshot);
            index = index + 1;
        }
        snapshots
    }

    pub fn summary(&self) -> (summary: XhciProbeSummary)
        ensures
            summary == summary_of(self.secret, self.entries@.len() as usize, self.entries@),
    {
        let controllers: usize = self.entries.len();
        let mut summary = XhciProbeSummary {
            controllers,
            total_ports: 0,
            total_slots: 0,
            bootstrap_headers: 0,
            legacy_capable_controllers: 0,
            reset_ready_controllers: 0,
            mutation_debts: 0,
            measured_aperture_bytes: 0,
            supported_protocols: 0,
            usb2_ports: 0,
            usb3_ports: 0,
            root: mix(self.secret, controllers as u64),
        };
        let mut index: usize = 0;
        assert(self.entries@.take(0) =~= Seq::<XhciCensusEntry>::empty());
        while index < self.entries.len()
            invariant
                index <= self.entries@.len(),
                summary == summary_of(self.secret, controllers, self.entries@.take(index as int)),
            decreases self.entries@.len() - index,
        {
            proof {
                assert(self.entries@.take(index + 1).drop_last() =~= self.entries@.take(
                    index as int,
                ));
            }
            let snapshot = self.entries[index].snapshot;
            summary.total_ports = summary.total_ports.saturating_add(
                snapshot.maximum_ports as usize,
            );
            summary.total_slots = summary.total_slots.saturating_add(
                snapshot.maximum_device_slots as usize,
            );
            summary.bootstrap_headers = summary.bootstrap_headers.saturating_add(
                snapshot.bootstrap_header_count as usize,
            );
            if snapshot.legacy_support_offset != 0 {
                summary.legacy_capable_controllers =
                summary.legacy_capable_controllers.saturating_add(1);
            }
            summary = sum_retained(summary, &self.entries[index].retained, self.secret);
            summary.root = mix(summary.root, snapshot.snapshot_root);
            index = index + 1;
        }
        assert(self.entries@.take(index as int) =~= self.entries@);
        summary
    }
}

/// Publishes the boot census into its slot, once.
pub fn publish_boot_xhci(
    published: &mut Option<XhciProbeCensus>,
    census: XhciProbeCensus,
) -> (result: Result<XhciProbeSummary, XhciProbeError>)
    ensures
        match *old(published) {
            Some(_) => {
                &&& result == Err::<XhciProbeSummary, _>(XhciProbeError::AlreadyPublished)
                &&& *final(published) == *old(published)
            },
            None => {
                &&& result == Ok::<XhciProbeSummary, XhciProbeError>(
                    summary_of(census.secret, census.entries@.len() as usize, census.entries@),
                )
                &&& *final(published) == Some(census)
            },
        },
{
    let summary = census.summary();
    if published.is_some() {
        return Err(XhciProbeError::AlreadyPublished);
    }
    *published = Some(census);
    Ok(summary)
}

pub fn boot_xhci_summary(published: &Option<XhciProbeCensus>) -> (summary: Option<
    XhciProbeSummary,
>)
    ensures
        summary == (match *published {
            Some(census) => Some(
                summary_of(census.secret, census.entries@.len() as usize, census.entries@),
            ),
            None => None,
        }),
{
    match published {
        Some(census) => Some(census.summary()),
        None => None,
    }
}

pub fn boot_xhci_snapshot(
    published: &Option<XhciProbeCensus>,
    address: DeviceAddress,
) -> (snapshot: Option<XhciCapabilitySnapshot>)
    ensures
        snapshot == (match *published {
            Some(census) => match place_of(census.entries@, address, 0) {
                Some(place) => Some(census.entries@[place].snapshot),
                None => None,
            },
            None => None,
        }),
{
    match published {
        Some(census) => match census.find(address) {
            Some(index) => Some(census.entries[index].snapshot),
            None => None,
        },
        None => None,
    }
}

/// The root by which a controller of the census ended.
pub open spec fn terminal_root_of(entry: XhciCensusEntry, secret: u64) -> Option<u64> {
    match entry.retained {
        Some(RetainedController::ResetReady(controller)) => Some(controller.reset_ready_root),
        Some(RetainedController::MutationDebt(debt)) => if debt.proven_root(secret) != 0 {
            Some(debt.proven_root(secret))
        } else {
            None
        },
        None => Some(entry.snapshot.snapshot_root),
    }
}

pub fn boot_xhci_terminal_root(
    published: &Option<XhciProbeCensus>,
    address: DeviceAddress,
) -> (root: Option<u64>)
    ensures
        root == (match *published {
            Some(census) => match place_of(census.entries@, address, 0) {
                Some(place) => terminal_root_of(census.entries@[place], census.secret),
                None => None,
            },
            None => None,
        }),
{
    let census = match published {
        Some(census) => census,
        None => {
            return None;
        },
    };
    let index: usize = match census.find(address) {
        Some(index) => index,
        None => {
            return None;
        },
    };
    match &census.entries[index].retained {
        Some(RetainedController::ResetReady(controller)) => Some(controller.reset_ready_root),
        Some(RetainedController::MutationDebt(debt)) => {
            let root: u64 = debt.debt_root(census.secret);
            if root != 0 {
                Some(root)
            } else {
                None
            }
        },
        None => Some(census.entries[index].snapshot.snapshot_root),
    }
}

/// The words that the root of a failed activation seals.
pub open spec fn activation_words(
    snapshot: XhciCapabilitySnapshot,
    phase: TakeoverPhase,
    class: XhciDebtClass,
    mutated: bool,
) -> Seq<u64> {
    seq![
        snapshot.snapshot_root,
        phase.code(),
        class.code(),
        crate::seal::flag_word(mutated),
    ]
}

pub fn activation_containment_root(
    secret: u64,
    snapshot: XhciCapabilitySnapshot,
    phase: TakeoverPhase,
    class: XhciDebtClass,
    mutated: bool,
) -> (root: Option<u64>)
    ensures
        root == (if secret == 0 || snapshot.snapshot_root == 0 {
            None
        } else {
            Some(
                crate::seal::seal_of(secret, activation_words(snapshot, phase, class, mutated)),
            )
        }),
{
    if secret == 0 || snapshot.snapshot_root == 0 {
        return None;
    }
    Some(
        Sealer::new(secret).word(snapshot.snapshot_root).word(phase.code()).word(
            class.code(),
        ).word(flag(mutated)).root(),
    )
}

/// No two controllers of a census share an address, whatever is inserted.
pub proof fn law_addresses_stay_distinct(
    before: Seq<XhciCensusEntry>,
    entry: XhciCensusEntry,
    after: Seq<XhciCensusEntry>,
    result: Result<(), XhciProbeError>,
)
    requires
        inserted(before, entry, after, result),
        forall|i: int, j: int|
            0 <= i < j < before.len() ==> (#[trigger] before[i]).snapshot.address != (
            #[trigger] before[j]).snapshot.address,
        before.len() <= MAXIMUM_XHCI_CONTROLLERS,
    ensures
        forall|i: int, j: int|
            0 <= i < j < after.len() ==> (#[trigger] after[i]).snapshot.address != (
            #[trigger] after[j]).snapshot.address,
        after.len() <= MAXIMUM_XHCI_CONTROLLERS,
{
}

/// A snapshot root binds every measured field of the snapshot.
pub proof fn law_snapshot_root_binds_every_word(
    secret: u64,
    snapshot: XhciCapabilitySnapshot,
    other: XhciCapabilitySnapshot,
    at: int,
)
    requires
        0 <= at < snapshot.words().len(),
        snapshot.words()[at] != other.words()[at],
        forall|i: int|
            0 <= i < snapshot.words().len() && i != at ==> #[trigger] snapshot.words()[i]
                == other.words()[i],
    ensures
        snapshot.sealed(secret).snapshot_root != other.sealed(secret).snapshot_root,
{
    let words = snapshot.words();
    assert(words.update(at, other.words()[at]) =~= other.words());
    crate::seal::law_root_binds_every_word(secret, words, at, other.words()[at]);
}

} // verus!
