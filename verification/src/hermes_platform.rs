//! Kernel resources of a Hermes transport, and the ledger of its leases.
//!
//! No DMA isolation is inferred from an allocation: a DMA service binds each
//! allocation to its remapping domain and orders what device and processor see.

use crate::drivernet::fingerprint::{GpuFingerprint, BAR_64BIT, BAR_IO, BAR_PRESENT};
use crate::hermes_abi::HermesPciIdentity;
use crate::hermes_gsp::{
    is_power_of_two, DmaPurpose, DmaRegion, HermesFault, HermesPlatform, MmioWindow,
};
use crate::pci::PciAddress;
use crate::status::{STATUS_NOT_FOUND, STATUS_OK, STATUS_UNSUPPORTED};
pub use crate::hermes_services::{
    DmaAllocation, HermesDomainDmaService, HermesKernel, MmioMapping, PlatformEvent,
    PlatformTrace,
};
use crate::hermes_trace::HermesEvent;
use vstd::prelude::*;

verus! {

broadcast use {
    crate::trace::lemma_continues_through,
    crate::hermes_services::lemma_follows_itself,
    crate::hermes_services::lemma_follows_continues,
    crate::hermes_services::lemma_follows_through,
};

pub const BAR_COUNT: usize = 6;

pub const MAXIMUM_DMA_LEASES: usize = 8;

/// Which services a kernel has.
#[derive(Clone, Copy, Debug, PartialEq, Eq, Structural)]
pub struct HermesServicePresence {
    pub isolation: bool,
    pub mmio: bool,
    pub dma: bool,
    pub irq: bool,
}

/// Which services a device can use.
#[derive(Clone, Copy, Debug, PartialEq, Eq, Structural)]
pub struct HermesKernelServices {
    pub isolation: bool,
    pub mmio: bool,
    pub dma: bool,
    pub irq: bool,
    pub firmware_dma: bool,
}

#[derive(Clone, Copy, Debug, PartialEq, Eq, Structural)]
pub enum HermesPlatformError {
    MissingIsolationService,
    MissingMmioService,
    MissingDmaService,
    MissingIrqService,
    IdentityMismatch,
    InvalidBar,
    BarEvidenceMismatch,
    InvalidRequest,
    LeaseCapacity,
    StaleLease,
    ResourcesStillLive,
    Backend(i32),
}

#[derive(Clone, Copy, Debug, PartialEq, Eq, Structural)]
pub struct DomainLease {
    pub generation: u32,
}

#[derive(Clone, Copy, Debug, PartialEq, Eq, Structural)]
pub struct MmioLease {
    pub slot: u8,
    pub generation: u32,
}

#[derive(Clone, Copy, Debug, PartialEq, Eq, Structural)]
pub struct DmaLease {
    pub slot: u8,
    pub generation: u32,
}

#[derive(Clone, Copy, Debug, PartialEq, Eq, Structural)]
pub struct IrqLease {
    pub generation: u32,
}

#[derive(Clone, Copy, Debug, PartialEq, Eq, Structural)]
pub struct MappedBar {
    pub lease: MmioLease,
    pub bar: u8,
    pub length: u64,
}

#[derive(Clone, Copy, Debug, PartialEq, Eq, Structural)]
pub struct AllocatedDma {
    pub lease: DmaLease,
    pub device_address: u64,
    pub length: usize,
    pub alignment: usize,
    pub purpose: DmaPurpose,
}

/// What a cleanup could not give back.
#[derive(Clone, Copy, Debug, PartialEq, Eq, Structural)]
pub struct CleanupReport {
    pub pending_bars: u8,
    pub pending_dma: u16,
    pub pending_irq: bool,
    pub pending_domain: bool,
    pub first_status: i32,
}

impl CleanupReport {
    #[verifier::allow_in_spec]
    pub fn complete(self) -> bool
        returns
            (self.pending_bars == 0 && self.pending_dma == 0 && !self.pending_irq
                && !self.pending_domain),
    {
        self.pending_bars == 0 && self.pending_dma == 0 && !self.pending_irq
            && !self.pending_domain
    }

    /// A report of nothing.
    #[verifier::allow_in_spec]
    pub fn empty() -> CleanupReport
        returns
            (CleanupReport {
                pending_bars: 0,
                pending_dma: 0,
                pending_irq: false,
                pending_domain: false,
                first_status: STATUS_OK,
            }),
    {
        CleanupReport {
            pending_bars: 0,
            pending_dma: 0,
            pending_irq: false,
            pending_domain: false,
            first_status: STATUS_OK,
        }
    }

    /// The report with a status, unless it has one already.
    #[verifier::allow_in_spec]
    pub fn with_status(self, value: i32) -> CleanupReport
        returns
            (CleanupReport {
                first_status: if self.first_status == STATUS_OK {
                    value
                } else {
                    self.first_status
                },
                ..self
            }),
    {
        CleanupReport {
            first_status: if self.first_status == STATUS_OK {
                value
            } else {
                self.first_status
            },
            ..self
        }
    }
}

#[derive(Clone, Copy, Debug, PartialEq, Eq, Structural)]
pub struct DomainRecord {
    pub backend: u64,
    pub generation: u32,
    pub active: bool,
}

#[derive(Clone, Copy, Debug, PartialEq, Eq, Structural)]
pub struct MmioRecord {
    pub backend: u64,
    pub pointer: usize,
    pub length: u64,
    pub generation: u32,
    pub active: bool,
}

impl MmioRecord {
    #[verifier::allow_in_spec]
    pub fn empty() -> MmioRecord
        returns
            (MmioRecord { backend: 0, pointer: 0, length: 0, generation: 0, active: false }),
    {
        MmioRecord { backend: 0, pointer: 0, length: 0, generation: 0, active: false }
    }
}

#[derive(Clone, Copy, Debug, PartialEq, Eq, Structural)]
pub struct DmaRecord {
    pub backend: u64,
    pub device_address: u64,
    pub length: usize,
    pub alignment: usize,
    pub purpose: DmaPurpose,
    pub generation: u32,
    pub active: bool,
}

impl DmaRecord {
    #[verifier::allow_in_spec]
    pub fn empty() -> DmaRecord
        returns
            (DmaRecord {
                backend: 0,
                device_address: 0,
                length: 0,
                alignment: 0,
                purpose: DmaPurpose::CommandRing,
                generation: 0,
                active: false,
            }),
    {
        DmaRecord {
            backend: 0,
            device_address: 0,
            length: 0,
            alignment: 0,
            purpose: DmaPurpose::CommandRing,
            generation: 0,
            active: false,
        }
    }
}

#[derive(Clone, Copy, Debug, PartialEq, Eq, Structural)]
pub struct IrqRecord {
    pub backend: u64,
    pub generation: u32,
    pub enabled: bool,
    pub active: bool,
}

/// The ledger of leases.
pub struct LeaseState {
    pub domain: DomainRecord,
    pub bars: [MmioRecord; 6],
    pub dma: [DmaRecord; 8],
    pub irq: IrqRecord,
}

/// What a ledger says.
#[verifier::ext_equal]
pub struct LeaseBook {
    pub domain: DomainRecord,
    pub bars: Seq<MmioRecord>,
    pub dma: Seq<DmaRecord>,
    pub irq: IrqRecord,
}

impl View for LeaseState {
    type V = LeaseBook;

    open spec fn view(&self) -> LeaseBook {
        LeaseBook { domain: self.domain, bars: self.bars@, dma: self.dma@, irq: self.irq }
    }
}

impl LeaseBook {
    /// A ledger that never held a lease.
    pub open spec fn empty() -> LeaseBook {
        LeaseBook {
            domain: DomainRecord { backend: 0, generation: 0, active: false },
            bars: Seq::new(6, |i: int| MmioRecord::empty()),
            dma: Seq::new(8, |i: int| DmaRecord::empty()),
            irq: IrqRecord { backend: 0, generation: 0, enabled: false, active: false },
        }
    }

    /// Whether every lease is stale.
    pub open spec fn nothing_leased(self) -> bool {
        &&& !self.domain.active
        &&& !self.irq.active
        &&& forall|i: int| 0 <= i < self.dma.len() ==> !(#[trigger] self.dma[i]).active
        &&& forall|i: int| 0 <= i < self.bars.len() ==> !(#[trigger] self.bars[i]).active
    }

    /// The domain that a lease stands for.
    pub open spec fn domain_of(self, lease: DomainLease) -> Result<u64, HermesPlatformError> {
        if self.domain.active && self.domain.generation == lease.generation {
            Ok(self.domain.backend)
        } else {
            Err(HermesPlatformError::StaleLease)
        }
    }

    /// The mapping that a lease stands for.
    pub open spec fn mmio_of(self, lease: MmioLease) -> Result<MmioRecord, HermesPlatformError> {
        if lease.slot < self.bars.len() && self.bars[lease.slot as int].active
            && self.bars[lease.slot as int].generation == lease.generation {
            Ok(self.bars[lease.slot as int])
        } else {
            Err(HermesPlatformError::StaleLease)
        }
    }

    /// The allocation that a lease stands for.
    pub open spec fn dma_of(self, lease: DmaLease) -> Result<DmaRecord, HermesPlatformError> {
        if lease.slot < self.dma.len() && self.dma[lease.slot as int].active
            && self.dma[lease.slot as int].generation == lease.generation {
            Ok(self.dma[lease.slot as int])
        } else {
            Err(HermesPlatformError::StaleLease)
        }
    }
}

impl LeaseState {
    pub fn new() -> (state: LeaseState)
        ensures
            state@ == LeaseBook::empty(),
    {
        let state = LeaseState {
            domain: DomainRecord { backend: 0, generation: 0, active: false },
            bars: [MmioRecord::empty();6],
            dma: [DmaRecord::empty();8],
            irq: IrqRecord { backend: 0, generation: 0, enabled: false, active: false },
        };
        assert(state@.bars =~= LeaseBook::empty().bars);
        assert(state@.dma =~= LeaseBook::empty().dma);
        state
    }

    pub fn domain(&self, lease: DomainLease) -> (result: Result<u64, HermesPlatformError>)
        ensures
            result == self@.domain_of(lease),
    {
        if self.domain.active && self.domain.generation == lease.generation {
            Ok(self.domain.backend)
        } else {
            Err(HermesPlatformError::StaleLease)
        }
    }

    pub fn mmio_record(&self, lease: MmioLease) -> (result: Result<MmioRecord, HermesPlatformError>)
        ensures
            result == self@.mmio_of(lease),
    {
        if lease.slot as usize >= BAR_COUNT {
            return Err(HermesPlatformError::StaleLease);
        }
        let record = self.bars[lease.slot as usize];
        if record.active && record.generation == lease.generation {
            Ok(record)
        } else {
            Err(HermesPlatformError::StaleLease)
        }
    }

    pub fn dma_record(&self, lease: DmaLease) -> (result: Result<DmaRecord, HermesPlatformError>)
        ensures
            result == self@.dma_of(lease),
    {
        if lease.slot as usize >= MAXIMUM_DMA_LEASES {
            return Err(HermesPlatformError::StaleLease);
        }
        let record = self.dma[lease.slot as usize];
        if record.active && record.generation == lease.generation {
            Ok(record)
        } else {
            Err(HermesPlatformError::StaleLease)
        }
    }
}

#[verifier::allow_in_spec]
pub fn identity_matches(fingerprint: &GpuFingerprint, identity: HermesPciIdentity) -> bool
    returns
        (fingerprint.segment == identity.segment && fingerprint.bus == identity.bus
            && fingerprint.slot == identity.slot && fingerprint.function == identity.function
            && fingerprint.vendor_id == identity.vendor_id && fingerprint.device_id
            == identity.device_id && fingerprint.subsystem_vendor_id
            == identity.subsystem_vendor_id && fingerprint.subsystem_device_id
            == identity.subsystem_device_id && fingerprint.revision == identity.revision
            && fingerprint.class_code == identity.class_code && fingerprint.subclass
            == identity.subclass && fingerprint.programming_interface
            == identity.programming_interface),
{
    fingerprint.segment == identity.segment && fingerprint.bus == identity.bus && fingerprint.slot
        == identity.slot && fingerprint.function == identity.function && fingerprint.vendor_id
        == identity.vendor_id && fingerprint.device_id == identity.device_id
        && fingerprint.subsystem_vendor_id == identity.subsystem_vendor_id
        && fingerprint.subsystem_device_id == identity.subsystem_device_id && fingerprint.revision
        == identity.revision && fingerprint.class_code == identity.class_code
        && fingerprint.subclass == identity.subclass && fingerprint.programming_interface
        == identity.programming_interface
}

/// The address of a memory BAR whose words agree with its flags.
#[verifier::allow_in_spec]
pub fn bar_physical_address(raw_low: u32, raw_high: u32, flags: u8) -> Result<
    u64,
    HermesPlatformError,
>
    returns
        ({
            let memory_type = (raw_low >> 1) & 0x3;
            let wide = flags & BAR_64BIT != 0;
            let low = (raw_low & 0xffff_fff0) as u64;
            let address = if wide {
                ((raw_high as u64) << 32) | low
            } else {
                low
            };
            if flags & BAR_PRESENT == 0 || flags & BAR_IO != 0 || raw_low & 1 != 0 || memory_type
                == 3 || wide != (memory_type == 2) || (!wide && raw_high != 0) || address == 0 {
                Err(HermesPlatformError::BarEvidenceMismatch)
            } else {
                Ok(address)
            }
        }),
{
    if flags & BAR_PRESENT == 0 || flags & BAR_IO != 0 {
        return Err(HermesPlatformError::BarEvidenceMismatch);
    }
    let memory_type: u32 = (raw_low >> 1) & 0x3;
    let claims_64_bit: bool = flags & BAR_64BIT != 0;
    if raw_low & 1 != 0 || memory_type == 3 || claims_64_bit != (memory_type == 2) {
        return Err(HermesPlatformError::BarEvidenceMismatch);
    }
    let low: u64 = (raw_low & 0xffff_fff0) as u64;
    let address: u64 = if claims_64_bit {
        ((raw_high as u64) << 32) | low
    } else {
        if raw_high != 0 {
            return Err(HermesPlatformError::BarEvidenceMismatch);
        }
        low
    };
    if address == 0 {
        Err(HermesPlatformError::BarEvidenceMismatch)
    } else {
        Ok(address)
    }
}

#[verifier::allow_in_spec]
pub fn validate_span(total: usize, offset: usize, length: usize) -> Result<(), HermesPlatformError>
    returns
        (if length == 0 || offset + length > total {
            Err(HermesPlatformError::InvalidRequest)
        } else {
            Ok::<(), HermesPlatformError>(())
        }),
{
    if length == 0 {
        return Err(HermesPlatformError::InvalidRequest);
    }
    match offset.checked_add(length) {
        None => Err(HermesPlatformError::InvalidRequest),
        Some(end) => if end > total {
            Err(HermesPlatformError::InvalidRequest)
        } else {
            Ok(())
        },
    }
}

#[verifier::allow_in_spec]
pub fn next_generation(current: u32) -> Result<u32, HermesPlatformError>
    returns
        (if current == u32::MAX {
            Err(HermesPlatformError::LeaseCapacity)
        } else {
            Ok((current + 1) as u32)
        }),
{
    match current.checked_add(1) {
        None => Err(HermesPlatformError::LeaseCapacity),
        Some(next) => Ok(next),
    }
}

#[verifier::allow_in_spec]
pub fn settled(value: i32) -> Result<(), HermesPlatformError>
    returns
        (if value == STATUS_OK {
            Ok::<(), HermesPlatformError>(())
        } else {
            Err(HermesPlatformError::Backend(value))
        }),
{
    if value == STATUS_OK {
        Ok(())
    } else {
        Err(HermesPlatformError::Backend(value))
    }
}

pub open spec fn isolate_at(
    device: PciAddress,
    log: Seq<PlatformEvent>,
    at: int,
) -> Option<Result<u64, i32>> {
    if 0 <= at < log.len() {
        match log[at] {
            PlatformEvent::Isolate { device: asked, reply } => if asked == device {
                Some(reply)
            } else {
                None
            },
            _ => None,
        }
    } else {
        None
    }
}

pub open spec fn release_domain_at(domain: u64, log: Seq<PlatformEvent>, at: int) -> Option<i32> {
    if 0 <= at < log.len() {
        match log[at] {
            PlatformEvent::ReleaseDomain { domain: given, status } => if given == domain {
                Some(status)
            } else {
                None
            },
            _ => None,
        }
    } else {
        None
    }
}

pub open spec fn open_at(
    physical_address: u64,
    length: usize,
    log: Seq<PlatformEvent>,
    at: int,
) -> Option<Result<MmioMapping, i32>> {
    if 0 <= at < log.len() {
        match log[at] {
            PlatformEvent::Open {
                physical_address: place,
                length: extent,
                flags,
                reply,
            } => if place == physical_address && extent == length && flags == 0 {
                Some(reply)
            } else {
                None
            },
            _ => None,
        }
    } else {
        None
    }
}

pub open spec fn close_at(mapping: u64, log: Seq<PlatformEvent>, at: int) -> Option<i32> {
    if 0 <= at < log.len() {
        match log[at] {
            PlatformEvent::Close { mapping: given, status } => if given == mapping {
                Some(status)
            } else {
                None
            },
            _ => None,
        }
    } else {
        None
    }
}

pub open spec fn load_at(address: usize, log: Seq<PlatformEvent>, at: int) -> Option<u32> {
    if 0 <= at < log.len() {
        match log[at] {
            PlatformEvent::Load { address: place, value } => if place == address {
                Some(value)
            } else {
                None
            },
            _ => None,
        }
    } else {
        None
    }
}

pub open spec fn store_at(
    address: usize,
    value: u32,
    log: Seq<PlatformEvent>,
    at: int,
) -> Option<u32> {
    if 0 <= at < log.len() {
        match log[at] {
            PlatformEvent::Store {
                address: place,
                value: word,
            } => if place == address && word == value {
                Some(value)
            } else {
                None
            },
            _ => None,
        }
    } else {
        None
    }
}

pub open spec fn register_at(
    line: u32,
    log: Seq<PlatformEvent>,
    at: int,
) -> Option<Result<u64, i32>> {
    if 0 <= at < log.len() {
        match log[at] {
            PlatformEvent::Register {
                line: asked,
                flags,
                reply,
            } => if asked == line && flags == 0 {
                Some(reply)
            } else {
                None
            },
            _ => None,
        }
    } else {
        None
    }
}

pub open spec fn enable_at(
    interrupt: u64,
    enabled: bool,
    log: Seq<PlatformEvent>,
    at: int,
) -> Option<i32> {
    if 0 <= at < log.len() {
        match log[at] {
            PlatformEvent::Enable {
                interrupt: given,
                enabled: wanted,
                status,
            } => if given == interrupt && wanted == enabled {
                Some(status)
            } else {
                None
            },
            _ => None,
        }
    } else {
        None
    }
}

pub open spec fn unregister_at(interrupt: u64, log: Seq<PlatformEvent>, at: int) -> Option<i32> {
    if 0 <= at < log.len() {
        match log[at] {
            PlatformEvent::Unregister { interrupt: given, status } => if given == interrupt {
                Some(status)
            } else {
                None
            },
            _ => None,
        }
    } else {
        None
    }
}

pub open spec fn supports_at(
    purpose: DmaPurpose,
    log: Seq<PlatformEvent>,
    at: int,
) -> Option<bool> {
    if 0 <= at < log.len() {
        match log[at] {
            PlatformEvent::Supports { purpose: asked, reply } => if asked == purpose {
                Some(reply)
            } else {
                None
            },
            _ => None,
        }
    } else {
        None
    }
}

pub open spec fn allocate_at(
    domain: u64,
    length: usize,
    alignment: usize,
    purpose: DmaPurpose,
    log: Seq<PlatformEvent>,
    at: int,
) -> Option<Result<DmaAllocation, i32>> {
    if 0 <= at < log.len() {
        match log[at] {
            PlatformEvent::Allocate {
                domain: within,
                length: extent,
                alignment: step,
                purpose: meant,
                reply,
            } => if within == domain && extent == length && step == alignment && meant == purpose {
                Some(reply)
            } else {
                None
            },
            _ => None,
        }
    } else {
        None
    }
}

pub open spec fn release_at(
    domain: u64,
    allocation: u64,
    log: Seq<PlatformEvent>,
    at: int,
) -> Option<i32> {
    if 0 <= at < log.len() {
        match log[at] {
            PlatformEvent::Release {
                domain: within,
                allocation: given,
                status,
            } => if within == domain && given == allocation {
                Some(status)
            } else {
                None
            },
            _ => None,
        }
    } else {
        None
    }
}

pub open spec fn write_at(
    allocation: u64,
    offset: usize,
    bytes: Seq<u8>,
    log: Seq<PlatformEvent>,
    at: int,
) -> Option<i32> {
    if 0 <= at < log.len() {
        match log[at] {
            PlatformEvent::Write {
                allocation: given,
                offset: place,
                bytes: written,
                status,
            } => if given == allocation && place == offset && written == bytes {
                Some(status)
            } else {
                None
            },
            _ => None,
        }
    } else {
        None
    }
}

pub open spec fn read_at(
    allocation: u64,
    offset: usize,
    room: nat,
    bytes: Seq<u8>,
    log: Seq<PlatformEvent>,
    at: int,
) -> Option<i32> {
    if 0 <= at < log.len() {
        match log[at] {
            PlatformEvent::Read {
                allocation: given,
                offset: place,
                room: extent,
                bytes: seen,
                status,
            } => if given == allocation && place == offset && extent == room && seen == bytes {
                Some(status)
            } else {
                None
            },
            _ => None,
        }
    } else {
        None
    }
}

pub open spec fn publish_at(
    allocation: u64,
    offset: usize,
    length: usize,
    log: Seq<PlatformEvent>,
    at: int,
) -> Option<i32> {
    if 0 <= at < log.len() {
        match log[at] {
            PlatformEvent::Publish {
                allocation: given,
                offset: place,
                length: extent,
                status,
            } => if given == allocation && place == offset && extent == length {
                Some(status)
            } else {
                None
            },
            _ => None,
        }
    } else {
        None
    }
}

pub open spec fn acquire_at(
    allocation: u64,
    offset: usize,
    length: usize,
    log: Seq<PlatformEvent>,
    at: int,
) -> Option<i32> {
    if 0 <= at < log.len() {
        match log[at] {
            PlatformEvent::Acquire {
                allocation: given,
                offset: place,
                length: extent,
                status,
            } => if given == allocation && place == offset && extent == length {
                Some(status)
            } else {
                None
            },
            _ => None,
        }
    } else {
        None
    }
}

/// The isolation of the device of a fingerprint. A domain that came without a name
/// is kept in the ledger and refused.
pub open spec fn acquire_run(
    fingerprint: GpuFingerprint,
    present: HermesServicePresence,
    book: LeaseBook,
    identity: HermesPciIdentity,
    log: Seq<PlatformEvent>,
    at: int,
) -> Option<(Result<DomainLease, HermesPlatformError>, LeaseBook, int)> {
    if !identity_matches(&fingerprint, identity) {
        Some((Err(HermesPlatformError::IdentityMismatch), book, at))
    } else if !present.isolation {
        Some((Err(HermesPlatformError::MissingIsolationService), book, at))
    } else {
        match fingerprint.legacy_address() {
            None => Some((Err(HermesPlatformError::IdentityMismatch), book, at)),
            Some(device) => if book.domain.active {
                Some((Err(HermesPlatformError::ResourcesStillLive), book, at))
            } else {
                match next_generation(book.domain.generation) {
                    Err(error) => Some((Err(error), book, at)),
                    Ok(generation) => match isolate_at(device, log, at) {
                        None => None,
                        Some(Err(status)) => Some(
                            (Err(HermesPlatformError::Backend(status)), book, at + 1),
                        ),
                        Some(Ok(backend)) => Some(
                            (
                                if backend == 0 {
                                    Err(HermesPlatformError::Backend(STATUS_UNSUPPORTED))
                                } else {
                                    Ok(DomainLease { generation })
                                },
                                LeaseBook {
                                    domain: DomainRecord { backend, generation, active: true },
                                    ..book
                                },
                                at + 1,
                            ),
                        ),
                    },
                }
            },
        }
    }
}

/// Where a BAR that may be mapped lies.
pub open spec fn mappable_at(fingerprint: GpuFingerprint, bar: u8, minimum_length: u64) -> Result<
    u64,
    HermesPlatformError,
> {
    if bar >= 6 {
        Err(HermesPlatformError::InvalidBar)
    } else {
        let evidence = fingerprint.bars[bar as int];
        if evidence.flags & BAR_PRESENT == 0 || evidence.flags & BAR_IO != 0
            || !crate::hermes_gsp::power_of_two(evidence.length as nat) || minimum_length == 0
            || minimum_length > evidence.length {
            Err(HermesPlatformError::BarEvidenceMismatch)
        } else {
            match bar_physical_address(evidence.raw_low, evidence.raw_high, evidence.flags) {
                Err(error) => Err(error),
                Ok(physical) => if physical % evidence.length != 0 || evidence.length
                    > usize::MAX {
                    Err(HermesPlatformError::BarEvidenceMismatch)
                } else {
                    Ok(physical)
                },
            }
        }
    }
}

/// The mapping of a BAR.
pub open spec fn map_run(
    fingerprint: GpuFingerprint,
    present: HermesServicePresence,
    book: LeaseBook,
    domain: DomainLease,
    bar: u8,
    minimum_length: u64,
    log: Seq<PlatformEvent>,
    at: int,
) -> Option<(Result<MappedBar, HermesPlatformError>, LeaseBook, int)> {
    if !present.mmio {
        Some((Err(HermesPlatformError::MissingMmioService), book, at))
    } else {
        match mappable_at(fingerprint, bar, minimum_length) {
            Err(error) => Some((Err(error), book, at)),
            Ok(physical) => match book.domain_of(domain) {
                Err(error) => Some((Err(error), book, at)),
                Ok(_) => if book.bars[bar as int].active {
                    Some((Err(HermesPlatformError::ResourcesStillLive), book, at))
                } else {
                    let length = fingerprint.bars[bar as int].length;
                    match next_generation(book.bars[bar as int].generation) {
                        Err(error) => Some((Err(error), book, at)),
                        Ok(generation) => match open_at(physical, length as usize, log, at) {
                            None => None,
                            Some(Err(status)) => Some(
                                (Err(HermesPlatformError::Backend(status)), book, at + 1),
                            ),
                            Some(Ok(mapping)) => Some(
                                (
                                    if mapping.handle == 0 {
                                        Err(HermesPlatformError::Backend(STATUS_UNSUPPORTED))
                                    } else {
                                        Ok(
                                            MappedBar {
                                                lease: MmioLease { slot: bar, generation },
                                                bar,
                                                length,
                                            },
                                        )
                                    },
                                    LeaseBook {
                                        bars: book.bars.update(
                                            bar as int,
                                            MmioRecord {
                                                backend: mapping.handle,
                                                pointer: mapping.pointer,
                                                length,
                                                generation,
                                                active: true,
                                            },
                                        ),
                                        ..book
                                    },
                                    at + 1,
                                ),
                            ),
                        },
                    }
                },
            },
        }
    }
}

/// The address of a register of a live lease.
pub open spec fn register_address(book: LeaseBook, lease: MmioLease, offset: u32) -> Result<
    usize,
    HermesPlatformError,
> {
    match book.mmio_of(lease) {
        Err(error) => Err(error),
        Ok(record) => if offset & 3 != 0 || offset + 4 > record.length || record.pointer + offset
            > usize::MAX {
            Err(HermesPlatformError::InvalidRequest)
        } else {
            Ok((record.pointer + offset) as usize)
        },
    }
}

pub open spec fn read_run(
    book: LeaseBook,
    lease: MmioLease,
    offset: u32,
    log: Seq<PlatformEvent>,
    at: int,
) -> Option<(Result<u32, HermesPlatformError>, LeaseBook, int)> {
    match register_address(book, lease, offset) {
        Err(error) => Some((Err(error), book, at)),
        Ok(address) => match load_at(address, log, at) {
            None => None,
            Some(value) => Some((Ok(value), book, at + 1)),
        },
    }
}

pub open spec fn write_run(
    book: LeaseBook,
    lease: MmioLease,
    offset: u32,
    value: u32,
    log: Seq<PlatformEvent>,
    at: int,
) -> Option<(Result<(), HermesPlatformError>, LeaseBook, int)> {
    match register_address(book, lease, offset) {
        Err(error) => Some((Err(error), book, at)),
        Ok(address) => match store_at(address, value, log, at) {
            None => None,
            Some(_) => Some((Ok(()), book, at + 1)),
        },
    }
}

/// The revocation of a mapping.
pub open spec fn revoke_bar_run(
    present: HermesServicePresence,
    book: LeaseBook,
    lease: MmioLease,
    log: Seq<PlatformEvent>,
    at: int,
) -> Option<(Result<(), HermesPlatformError>, LeaseBook, int)> {
    if !present.mmio {
        Some((Err(HermesPlatformError::MissingMmioService), book, at))
    } else {
        match book.mmio_of(lease) {
            Err(error) => Some((Err(error), book, at)),
            Ok(record) => match close_at(record.backend, log, at) {
                None => None,
                Some(status) => if status != STATUS_OK {
                    Some((Err(HermesPlatformError::Backend(status)), book, at + 1))
                } else {
                    Some(
                        (
                            Ok(()),
                            LeaseBook {
                                bars: book.bars.update(
                                    lease.slot as int,
                                    MmioRecord { active: false, pointer: 0, length: 0, ..record },
                                ),
                                ..book
                            },
                            at + 1,
                        ),
                    )
                },
            },
        }
    }
}

/// The first slot from one on that can hold another allocation.
pub open spec fn free_dma_slot(dma: Seq<DmaRecord>, from: int) -> Option<int>
    decreases dma.len() - from,
{
    if from < 0 || from >= dma.len() {
        None
    } else if !dma[from].active && dma[from].generation != u32::MAX {
        Some(from)
    } else {
        free_dma_slot(dma, from + 1)
    }
}

/// What became of an allocation that was asked for. A receipt that cannot be used is
/// kept in the ledger and refused.
pub open spec fn receive_dma(
    book: LeaseBook,
    slot: int,
    length: usize,
    alignment: usize,
    purpose: DmaPurpose,
    allocation: DmaAllocation,
) -> (Result<AllocatedDma, HermesPlatformError>, LeaseBook) {
    let generation = (book.dma[slot].generation + 1) as u32;
    (
        if allocation.handle == 0 || allocation.device_address == 0 || allocation.device_address % (
        alignment as u64) != 0 {
            Err(HermesPlatformError::InvalidRequest)
        } else {
            Ok(
                AllocatedDma {
                    lease: DmaLease { slot: slot as u8, generation },
                    device_address: allocation.device_address,
                    length,
                    alignment,
                    purpose,
                },
            )
        },
        LeaseBook {
            dma: book.dma.update(
                slot,
                DmaRecord {
                    backend: allocation.handle,
                    device_address: allocation.device_address,
                    length,
                    alignment,
                    purpose,
                    generation,
                    active: true,
                },
            ),
            ..book
        },
    )
}

/// The allocation of DMA memory in a domain.
pub open spec fn allocate_run(
    present: HermesServicePresence,
    book: LeaseBook,
    domain: DomainLease,
    length: usize,
    alignment: usize,
    purpose: DmaPurpose,
    log: Seq<PlatformEvent>,
    at: int,
) -> Option<(Result<AllocatedDma, HermesPlatformError>, LeaseBook, int)> {
    if !present.dma {
        Some((Err(HermesPlatformError::MissingDmaService), book, at))
    } else if length == 0 || !crate::hermes_gsp::power_of_two(alignment as nat) {
        Some((Err(HermesPlatformError::InvalidRequest), book, at))
    } else {
        match supports_at(purpose, log, at) {
            None => None,
            Some(false) => Some((Err(HermesPlatformError::InvalidRequest), book, at + 1)),
            Some(true) => match book.domain_of(domain) {
                Err(error) => Some((Err(error), book, at + 1)),
                Ok(backend) => match free_dma_slot(book.dma, 0) {
                    None => Some((Err(HermesPlatformError::LeaseCapacity), book, at + 1)),
                    Some(slot) => match allocate_at(
                        backend,
                        length,
                        alignment,
                        purpose,
                        log,
                        at + 1,
                    ) {
                        None => None,
                        Some(Err(status)) => Some(
                            (Err(HermesPlatformError::Backend(status)), book, at + 2),
                        ),
                        Some(Ok(allocation)) => {
                            let (result, after) = receive_dma(
                                book,
                                slot,
                                length,
                                alignment,
                                purpose,
                                allocation,
                            );
                            Some((result, after, at + 2))
                        },
                    },
                },
            },
        }
    }
}

/// The record of a live lease that a span lies in.
pub open spec fn spanned(
    present: HermesServicePresence,
    book: LeaseBook,
    lease: DmaLease,
    offset: usize,
    length: usize,
) -> Result<DmaRecord, HermesPlatformError> {
    if !present.dma {
        Err(HermesPlatformError::MissingDmaService)
    } else {
        match book.dma_of(lease) {
            Err(error) => Err(error),
            Ok(record) => match validate_span(record.length, offset, length) {
                Err(error) => Err(error),
                Ok(_) => Ok(record),
            },
        }
    }
}

pub open spec fn dma_write_run(
    present: HermesServicePresence,
    book: LeaseBook,
    lease: DmaLease,
    offset: usize,
    bytes: Seq<u8>,
    log: Seq<PlatformEvent>,
    at: int,
) -> Option<(Result<(), HermesPlatformError>, LeaseBook, int)> {
    match spanned(present, book, lease, offset, bytes.len() as usize) {
        Err(error) => Some((Err(error), book, at)),
        Ok(record) => match write_at(record.backend, offset, bytes, log, at) {
            None => None,
            Some(status) => Some((settled(status), book, at + 1)),
        },
    }
}

/// A read into room for so many bytes, with the bytes that came.
pub open spec fn dma_read_run(
    present: HermesServicePresence,
    book: LeaseBook,
    lease: DmaLease,
    offset: usize,
    before: Seq<u8>,
    after: Seq<u8>,
    log: Seq<PlatformEvent>,
    at: int,
) -> Option<(Result<(), HermesPlatformError>, LeaseBook, int)> {
    match spanned(present, book, lease, offset, before.len() as usize) {
        Err(error) => if after == before {
            Some((Err(error), book, at))
        } else {
            None
        },
        Ok(record) => match read_at(record.backend, offset, before.len(), after, log, at) {
            None => None,
            Some(status) => Some((settled(status), book, at + 1)),
        },
    }
}

/// The ordering of what device and processor see of a span.
pub open spec fn visibility_run(
    present: HermesServicePresence,
    book: LeaseBook,
    lease: DmaLease,
    offset: usize,
    length: usize,
    publish: bool,
    log: Seq<PlatformEvent>,
    at: int,
) -> Option<(Result<(), HermesPlatformError>, LeaseBook, int)> {
    match spanned(present, book, lease, offset, length) {
        Err(error) => Some((Err(error), book, at)),
        Ok(record) => {
            let reply = if publish {
                publish_at(record.backend, offset, length, log, at)
            } else {
                acquire_at(record.backend, offset, length, log, at)
            };
            match reply {
                None => None,
                Some(status) => Some((settled(status), book, at + 1)),
            }
        },
    }
}

/// The revocation of an allocation.
pub open spec fn revoke_dma_run(
    present: HermesServicePresence,
    book: LeaseBook,
    lease: DmaLease,
    log: Seq<PlatformEvent>,
    at: int,
) -> Option<(Result<(), HermesPlatformError>, LeaseBook, int)> {
    if !present.dma {
        Some((Err(HermesPlatformError::MissingDmaService), book, at))
    } else {
        match book.dma_of(lease) {
            Err(error) => Some((Err(error), book, at)),
            Ok(record) => match release_at(book.domain.backend, record.backend, log, at) {
                None => None,
                Some(status) => if status != STATUS_OK {
                    Some((Err(HermesPlatformError::Backend(status)), book, at + 1))
                } else {
                    Some(
                        (
                            Ok(()),
                            LeaseBook {
                                dma: book.dma.update(
                                    lease.slot as int,
                                    DmaRecord {
                                        active: false,
                                        length: 0,
                                        device_address: 0,
                                        alignment: 0,
                                        ..record
                                    },
                                ),
                                ..book
                            },
                            at + 1,
                        ),
                    )
                },
            },
        }
    }
}

/// The registration of the fingerprinted interrupt: registered, then enabled, or
/// taken back where it cannot be enabled.
pub open spec fn register_run(
    fingerprint: GpuFingerprint,
    present: HermesServicePresence,
    book: LeaseBook,
    domain: DomainLease,
    log: Seq<PlatformEvent>,
    at: int,
) -> Option<(Result<IrqLease, HermesPlatformError>, LeaseBook, int)> {
    if !present.irq {
        Some((Err(HermesPlatformError::MissingIrqService), book, at))
    } else if fingerprint.interrupt_pin == 0 || fingerprint.interrupt_line == u8::MAX {
        Some((Err(HermesPlatformError::InvalidRequest), book, at))
    } else {
        match book.domain_of(domain) {
            Err(error) => Some((Err(error), book, at)),
            Ok(_) => if book.irq.active {
                Some((Err(HermesPlatformError::ResourcesStillLive), book, at))
            } else {
                match next_generation(book.irq.generation) {
                    Err(error) => Some((Err(error), book, at)),
                    Ok(generation) => match register_at(
                        fingerprint.interrupt_line as u32,
                        log,
                        at,
                    ) {
                        None => None,
                        Some(Err(status)) => Some(
                            (Err(HermesPlatformError::Backend(status)), book, at + 1),
                        ),
                        Some(Ok(backend)) => if backend == 0 {
                            Some((Err(HermesPlatformError::InvalidRequest), book, at + 1))
                        } else {
                            enabling_run(book, backend, generation, log, at + 1)
                        },
                    },
                }
            },
        }
    }
}

/// The enabling of a registered interrupt.
pub open spec fn enabling_run(
    book: LeaseBook,
    backend: u64,
    generation: u32,
    log: Seq<PlatformEvent>,
    at: int,
) -> Option<(Result<IrqLease, HermesPlatformError>, LeaseBook, int)> {
    let registered = IrqRecord { backend, generation, enabled: false, active: true };
    match enable_at(backend, true, log, at) {
        None => None,
        Some(enabled) => if enabled == STATUS_OK {
            Some(
                (
                    Ok(IrqLease { generation }),
                    LeaseBook { irq: IrqRecord { enabled: true, ..registered }, ..book },
                    at + 1,
                ),
            )
        } else {
            match unregister_at(backend, log, at + 1) {
                None => None,
                Some(removed) => Some(
                    (
                        Err(HermesPlatformError::Backend(enabled)),
                        LeaseBook {
                            irq: IrqRecord { active: removed != STATUS_OK, ..registered },
                            ..book
                        },
                        at + 2,
                    ),
                ),
            }
        },
    }
}

/// The removal of an interrupt: disabled where it is enabled, then unregistered.
/// With the status of the step that failed, or of the last.
pub open spec fn removal_run(irq: IrqRecord, log: Seq<PlatformEvent>, at: int) -> Option<
    (i32, IrqRecord, int),
> {
    if irq.enabled {
        match enable_at(irq.backend, false, log, at) {
            None => None,
            Some(disabled) => if disabled != STATUS_OK {
                Some((disabled, irq, at + 1))
            } else {
                match unregister_at(irq.backend, log, at + 1) {
                    None => None,
                    Some(removed) => Some((removed, IrqRecord { enabled: false, ..irq }, at + 2)),
                }
            },
        }
    } else {
        match unregister_at(irq.backend, log, at) {
            None => None,
            Some(removed) => Some((removed, irq, at + 1)),
        }
    }
}

pub open spec fn revoke_irq_run(
    present: HermesServicePresence,
    book: LeaseBook,
    lease: IrqLease,
    log: Seq<PlatformEvent>,
    at: int,
) -> Option<(Result<(), HermesPlatformError>, LeaseBook, int)> {
    if !present.irq {
        Some((Err(HermesPlatformError::MissingIrqService), book, at))
    } else if !book.irq.active || book.irq.generation != lease.generation {
        Some((Err(HermesPlatformError::StaleLease), book, at))
    } else {
        match removal_run(book.irq, log, at) {
            None => None,
            Some((status, irq, next)) => if status != STATUS_OK {
                Some((Err(HermesPlatformError::Backend(status)), LeaseBook { irq, ..book }, next))
            } else {
                Some((Ok(()), LeaseBook { irq: IrqRecord { active: false, ..irq }, ..book }, next))
            },
        }
    }
}

/// The interrupt's part of a cleanup.
pub open spec fn irq_cleanup_run(
    present: HermesServicePresence,
    irq: IrqRecord,
    report: CleanupReport,
    log: Seq<PlatformEvent>,
    at: int,
) -> Option<(IrqRecord, CleanupReport, int)> {
    if !irq.active {
        Some((irq, report, at))
    } else if !present.irq {
        Some(
            (
                irq,
                CleanupReport { pending_irq: true, ..report }.with_status(STATUS_UNSUPPORTED),
                at,
            ),
        )
    } else {
        match removal_run(irq, log, at) {
            None => None,
            Some((status, after, next)) => if status == STATUS_OK {
                Some((IrqRecord { active: false, ..after }, report, next))
            } else {
                Some(
                    (
                        after,
                        CleanupReport { pending_irq: true, ..report }.with_status(status),
                        next,
                    ),
                )
            },
        }
    }
}

/// The report of an allocation that stays.
pub open spec fn dma_stays(report: CleanupReport, index: int, status: i32) -> CleanupReport {
    CleanupReport {
        pending_dma: report.pending_dma | (1u16 << (index as u16)),
        ..report
    }.with_status(status)
}

/// The report of a mapping that stays.
pub open spec fn bar_stays(report: CleanupReport, index: int, status: i32) -> CleanupReport {
    CleanupReport {
        pending_bars: report.pending_bars | (1u8 << (index as u8)),
        ..report
    }.with_status(status)
}

/// The allocations' part of a cleanup: the last first.
pub open spec fn dma_cleanup_run(
    present: HermesServicePresence,
    domain: u64,
    dma: Seq<DmaRecord>,
    count: nat,
    report: CleanupReport,
    log: Seq<PlatformEvent>,
    at: int,
) -> Option<(Seq<DmaRecord>, CleanupReport, int)>
    decreases count,
{
    if count == 0 {
        Some((dma, report, at))
    } else {
        let index = count - 1;
        let rest = (count - 1) as nat;
        if !dma[index].active {
            dma_cleanup_run(present, domain, dma, rest, report, log, at)
        } else if !present.dma {
            dma_cleanup_run(
                present,
                domain,
                dma,
                rest,
                dma_stays(report, index, STATUS_UNSUPPORTED),
                log,
                at,
            )
        } else {
            match release_at(domain, dma[index].backend, log, at) {
                None => None,
                Some(status) => if status == STATUS_OK {
                    dma_cleanup_run(
                        present,
                        domain,
                        dma.update(index, DmaRecord { active: false, ..dma[index] }),
                        rest,
                        report,
                        log,
                        at + 1,
                    )
                } else {
                    dma_cleanup_run(
                        present,
                        domain,
                        dma,
                        rest,
                        dma_stays(report, index, status),
                        log,
                        at + 1,
                    )
                },
            }
        }
    }
}

/// The mappings' part of a cleanup: the last first.
pub open spec fn bar_cleanup_run(
    present: HermesServicePresence,
    bars: Seq<MmioRecord>,
    count: nat,
    report: CleanupReport,
    log: Seq<PlatformEvent>,
    at: int,
) -> Option<(Seq<MmioRecord>, CleanupReport, int)>
    decreases count,
{
    if count == 0 {
        Some((bars, report, at))
    } else {
        let index = count - 1;
        let rest = (count - 1) as nat;
        if !bars[index].active {
            bar_cleanup_run(present, bars, rest, report, log, at)
        } else if !present.mmio {
            bar_cleanup_run(
                present,
                bars,
                rest,
                bar_stays(report, index, STATUS_UNSUPPORTED),
                log,
                at,
            )
        } else {
            match close_at(bars[index].backend, log, at) {
                None => None,
                Some(status) => if status == STATUS_OK {
                    bar_cleanup_run(
                        present,
                        bars.update(
                            index,
                            MmioRecord { active: false, pointer: 0, ..bars[index] },
                        ),
                        rest,
                        report,
                        log,
                        at + 1,
                    )
                } else {
                    bar_cleanup_run(
                        present,
                        bars,
                        rest,
                        bar_stays(report, index, status),
                        log,
                        at + 1,
                    )
                },
            }
        }
    }
}

/// The domain's part of a cleanup: it goes only when nothing else stays.
pub open spec fn domain_cleanup_run(
    present: HermesServicePresence,
    book: LeaseBook,
    report: CleanupReport,
    log: Seq<PlatformEvent>,
    at: int,
) -> Option<(Result<(), CleanupReport>, LeaseBook, int)> {
    let stays = CleanupReport { pending_domain: true, ..report };
    if report.pending_irq || report.pending_dma != 0 || report.pending_bars != 0 {
        Some((Err(stays), book, at))
    } else if !present.isolation {
        Some((Err(stays.with_status(STATUS_UNSUPPORTED)), book, at))
    } else {
        match release_domain_at(book.domain.backend, log, at) {
            None => None,
            Some(status) => if status != STATUS_OK {
                Some((Err(stays.with_status(status)), book, at + 1))
            } else {
                Some(
                    (
                        Ok(()),
                        LeaseBook { domain: DomainRecord { active: false, ..book.domain }, ..book },
                        at + 1,
                    ),
                )
            },
        }
    }
}

/// A cleanup: interrupt, allocations, mappings and domain, in the reverse of the
/// order in which they were taken. What cannot be given back stays in the ledger.
pub open spec fn cleanup_run(
    present: HermesServicePresence,
    book: LeaseBook,
    domain: DomainLease,
    log: Seq<PlatformEvent>,
    at: int,
) -> Option<(Result<(), CleanupReport>, LeaseBook, int)> {
    match book.domain_of(domain) {
        Err(_) => Some(
            (
                Err(
                    CleanupReport {
                        pending_domain: true,
                        first_status: STATUS_NOT_FOUND,
                        ..CleanupReport::empty()
                    },
                ),
                book,
                at,
            ),
        ),
        Ok(backend) => match irq_cleanup_run(present, book.irq, CleanupReport::empty(), log, at) {
            None => None,
            Some((irq, interrupted, next)) => match dma_cleanup_run(
                present,
                backend,
                book.dma,
                8,
                interrupted,
                log,
                next,
            ) {
                None => None,
                Some((dma, released, then)) => match bar_cleanup_run(
                    present,
                    book.bars,
                    6,
                    released,
                    log,
                    then,
                ) {
                    None => None,
                    Some((bars, unmapped, end)) => domain_cleanup_run(
                        present,
                        LeaseBook { irq, dma, bars, ..book },
                        unmapped,
                        log,
                        end,
                    ),
                },
            },
        },
    }
}

/// Whether a report names an allocation.
pub open spec fn names_dma(pending: u16, slot: int) -> bool {
    pending & (1u16 << (slot as u16)) != 0
}

/// Whether a report names a mapping.
pub open spec fn names_bar(pending: u8, slot: int) -> bool {
    pending & (1u8 << (slot as u8)) != 0
}

/// The allocations that are live among the first slots, the last first.
pub open spec fn live_dma(dma: Seq<DmaRecord>, count: nat) -> Seq<u64>
    decreases count,
{
    if count == 0 {
        Seq::empty()
    } else if dma[count - 1].active {
        seq![dma[count - 1].backend] + live_dma(dma, (count - 1) as nat)
    } else {
        live_dma(dma, (count - 1) as nat)
    }
}

/// The allocations that a report names among the first slots, the last first.
pub open spec fn named_dma(pending: u16, dma: Seq<DmaRecord>, count: nat) -> Seq<u64>
    decreases count,
{
    if count == 0 {
        Seq::empty()
    } else if names_dma(pending, count - 1) {
        seq![dma[count - 1].backend] + named_dma(pending, dma, (count - 1) as nat)
    } else {
        named_dma(pending, dma, (count - 1) as nat)
    }
}

/// The mappings that are live among the first slots, the last first.
pub open spec fn live_bars(bars: Seq<MmioRecord>, count: nat) -> Seq<u64>
    decreases count,
{
    if count == 0 {
        Seq::empty()
    } else if bars[count - 1].active {
        seq![bars[count - 1].backend] + live_bars(bars, (count - 1) as nat)
    } else {
        live_bars(bars, (count - 1) as nat)
    }
}

/// The mappings that a report names among the first slots, the last first.
pub open spec fn named_bars(pending: u8, bars: Seq<MmioRecord>, count: nat) -> Seq<u64>
    decreases count,
{
    if count == 0 {
        Seq::empty()
    } else if names_bar(pending, count - 1) {
        seq![bars[count - 1].backend] + named_bars(pending, bars, (count - 1) as nat)
    } else {
        named_bars(pending, bars, (count - 1) as nat)
    }
}

/// Whether allocations were asked back one after the other from a place on.
pub open spec fn releases(
    domain: u64,
    allocations: Seq<u64>,
    log: Seq<PlatformEvent>,
    at: int,
) -> bool {
    forall|k: int|
        0 <= k < allocations.len() ==> release_at(domain, #[trigger] allocations[k], log, at + k)
            is Some
}

/// Whether mappings were closed one after the other from a place on.
pub open spec fn closes(mappings: Seq<u64>, log: Seq<PlatformEvent>, at: int) -> bool {
    forall|k: int|
        0 <= k < mappings.len() ==> close_at(#[trigger] mappings[k], log, at + k) is Some
}

/// Whether a report leaves more than the domain.
pub open spec fn leaves_leases(result: Result<(), CleanupReport>) -> bool {
    result matches Err(report) && (report.pending_irq || report.pending_dma != 0
        || report.pending_bars != 0)
}

/// Whether a cleanup asked for everything that was leased, whatever was answered: the
/// interrupt, the allocations from the last down, the mappings from the last down, and
/// the domain where nothing of these stays. What belongs to a missing service is not
/// asked for.
pub open spec fn asks_for_every_lease(
    present: HermesServicePresence,
    book: LeaseBook,
    result: Result<(), CleanupReport>,
    log: Seq<PlatformEvent>,
    at: int,
    end: int,
) -> bool {
    irq_cleanup_run(present, book.irq, CleanupReport::empty(), log, at) matches Some((_, _, next))
        && {
        let dma = if present.dma {
            live_dma(book.dma, 8)
        } else {
            Seq::empty()
        };
        let bars = if present.mmio {
            live_bars(book.bars, 6)
        } else {
            Seq::empty()
        };
        let then = next + dma.len();
        let last = then + bars.len();
        &&& releases(book.domain.backend, dma, log, next)
        &&& closes(bars, log, then)
        &&& if leaves_leases(result) || !present.isolation {
            end == last
        } else {
            release_domain_at(book.domain.backend, log, last) is Some && end == last + 1
        }
    }
}

/// Whether a report names what a ledger still holds, and nothing else.
pub open spec fn names_what_stays(report: CleanupReport, after: LeaseBook) -> bool {
    &&& report.pending_domain
    &&& report.pending_irq == after.irq.active
    &&& forall|i: int| 0 <= i < 8 ==> (#[trigger] names_dma(report.pending_dma, i)
        <==> after.dma[i].active)
    &&& forall|i: int| 8 <= i < 16 ==> !#[trigger] names_dma(report.pending_dma, i)
    &&& forall|i: int| 0 <= i < 6 ==> (#[trigger] names_bar(report.pending_bars, i)
        <==> after.bars[i].active)
    &&& forall|i: int| 6 <= i < 8 ==> !#[trigger] names_bar(report.pending_bars, i)
}

/// The kernel's resources for one device, leased to its transport.
pub struct KernelHermesPlatform<K, D> {
    pub fingerprint: GpuFingerprint,
    pub present: HermesServicePresence,
    pub trace: PlatformTrace<K, D>,
    pub state: LeaseState,
}

impl<K: HermesKernel, D: HermesDomainDmaService> KernelHermesPlatform<K, D> {
    pub open spec fn log(&self) -> Seq<PlatformEvent> {
        self.trace.log()
    }

    pub open spec fn same_device(&self, other: &Self) -> bool {
        self.fingerprint == other.fingerprint && self.present == other.present
    }

    pub fn new(
        fingerprint: GpuFingerprint,
        present: HermesServicePresence,
        kernel: K,
        dma: D,
    ) -> (platform: Self)
        ensures
            platform.fingerprint == fingerprint,
            platform.present == present,
            platform.trace.kernel == kernel,
            platform.trace.dma == dma,
            platform.log() == Seq::<PlatformEvent>::empty(),
            platform.state@ == LeaseBook::empty(),
    {
        KernelHermesPlatform {
            fingerprint,
            present,
            trace: PlatformTrace::new(kernel, dma),
            state: LeaseState::new(),
        }
    }

    pub fn acquire_domain(&mut self, identity: HermesPciIdentity) -> (result: Result<
        DomainLease,
        HermesPlatformError,
    >)
        ensures
            final(self).trace.follows(&old(self).trace),
            final(self).same_device(old(self)),
            forall|log: Seq<PlatformEvent>| #[trigger]
                crate::trace::continues(log, final(self).log()) ==> acquire_run(
                    old(self).fingerprint,
                    old(self).present,
                    old(self).state@,
                    identity,
                    log,
                    old(self).log().len() as int,
                ) == Some(
                    (result, final(self).state@, final(self).log().len() as int),
                ),
    {
        if !identity_matches(&self.fingerprint, identity) {
            return Err(HermesPlatformError::IdentityMismatch);
        }
        if !self.present.isolation {
            return Err(HermesPlatformError::MissingIsolationService);
        }
        let device = match self.fingerprint.legacy_address() {
            None => {
                return Err(HermesPlatformError::IdentityMismatch);
            },
            Some(device) => device,
        };
        if self.state.domain.active {
            return Err(HermesPlatformError::ResourcesStillLive);
        }
        let generation: u32 = match next_generation(self.state.domain.generation) {
            Err(error) => {
                return Err(error);
            },
            Ok(generation) => generation,
        };
        let reply = self.trace.isolate(device);
        assert(
            self.log()[old(self).log().len() as int] == PlatformEvent::Isolate { device, reply }
        );
        let backend: u64 = match reply {
            Err(status) => {
                return Err(HermesPlatformError::Backend(status));
            },
            Ok(backend) => backend,
        };
        self.state.domain = DomainRecord { backend, generation, active: true };
        if backend == 0 {
            return Err(HermesPlatformError::Backend(STATUS_UNSUPPORTED));
        }
        Ok(DomainLease { generation })
    }

    fn mappable(&self, bar: u8, minimum_length: u64) -> (result: Result<u64, HermesPlatformError>)
        ensures
            result == mappable_at(self.fingerprint, bar, minimum_length),
    {
        if bar as usize >= BAR_COUNT {
            return Err(HermesPlatformError::InvalidBar);
        }
        let evidence = self.fingerprint.bars[bar as usize];
        if evidence.flags & BAR_PRESENT == 0 || evidence.flags & BAR_IO != 0 || evidence.length
            == 0 || !is_power_of_two(evidence.length) || minimum_length == 0 || minimum_length
            > evidence.length {
            return Err(HermesPlatformError::BarEvidenceMismatch);
        }
        match bar_physical_address(evidence.raw_low, evidence.raw_high, evidence.flags) {
            Err(error) => Err(error),
            Ok(physical) => if physical % evidence.length != 0 || evidence.length
                > usize::MAX as u64 {
                Err(HermesPlatformError::BarEvidenceMismatch)
            } else {
                Ok(physical)
            },
        }
    }

    pub fn map_bar(&mut self, domain: DomainLease, bar: u8, minimum_length: u64) -> (result: Result<
        MappedBar,
        HermesPlatformError,
    >)
        ensures
            final(self).trace.follows(&old(self).trace),
            final(self).same_device(old(self)),
            forall|log: Seq<PlatformEvent>| #[trigger]
                crate::trace::continues(log, final(self).log()) ==> map_run(
                    old(self).fingerprint,
                    old(self).present,
                    old(self).state@,
                    domain,
                    bar,
                    minimum_length,
                    log,
                    old(self).log().len() as int,
                ) == Some(
                    (result, final(self).state@, final(self).log().len() as int),
                ),
    {
        if !self.present.mmio {
            return Err(HermesPlatformError::MissingMmioService);
        }
        let physical: u64 = match self.mappable(bar, minimum_length) {
            Err(error) => {
                return Err(error);
            },
            Ok(physical) => physical,
        };
        let length: u64 = self.fingerprint.bars[bar as usize].length;
        match self.state.domain(domain) {
            Err(error) => {
                return Err(error);
            },
            Ok(_) => {},
        }
        let record = self.state.bars[bar as usize];
        if record.active {
            return Err(HermesPlatformError::ResourcesStillLive);
        }
        let generation: u32 = match next_generation(record.generation) {
            Err(error) => {
                return Err(error);
            },
            Ok(generation) => generation,
        };
        let reply = self.trace.map(physical, length as usize);
        assert(self.log()[old(self).log().len() as int] == PlatformEvent::Open {
            physical_address: physical,
            length: length as usize,
            flags: 0,
            reply,
        });
        let mapping = match reply {
            Err(status) => {
                return Err(HermesPlatformError::Backend(status));
            },
            Ok(mapping) => mapping,
        };
        self.state.bars[bar as usize] = MmioRecord {
            backend: mapping.handle,
            pointer: mapping.pointer,
            length,
            generation,
            active: true,
        };
        if mapping.handle == 0 {
            return Err(HermesPlatformError::Backend(STATUS_UNSUPPORTED));
        }
        Ok(MappedBar { lease: MmioLease { slot: bar, generation }, bar, length })
    }

    fn register_place(&self, lease: MmioLease, offset: u32) -> (result: Result<
        usize,
        HermesPlatformError,
    >)
        ensures
            result == register_address(self.state@, lease, offset),
    {
        let record = match self.state.mmio_record(lease) {
            Err(error) => {
                return Err(error);
            },
            Ok(record) => record,
        };
        if offset & 3 != 0 || offset as u64 + 4 > record.length {
            return Err(HermesPlatformError::InvalidRequest);
        }
        match record.pointer.checked_add(offset as usize) {
            None => Err(HermesPlatformError::InvalidRequest),
            Some(address) => Ok(address),
        }
    }

    pub fn read32(&mut self, lease: MmioLease, offset: u32) -> (result: Result<
        u32,
        HermesPlatformError,
    >)
        ensures
            final(self).trace.follows(&old(self).trace),
            final(self).same_device(old(self)),
            forall|log: Seq<PlatformEvent>| #[trigger]
                crate::trace::continues(log, final(self).log()) ==> read_run(
                    old(self).state@,
                    lease,
                    offset,
                    log,
                    old(self).log().len() as int,
                ) == Some(
                    (result, final(self).state@, final(self).log().len() as int),
                ),
    {
        match self.register_place(lease, offset) {
            Err(error) => Err(error),
            Ok(address) => {
                let value: u32 = self.trace.load(address);
                assert(self.log()[old(self).log().len() as int] == PlatformEvent::Load {
                    address,
                    value,
                });
                Ok(value)
            },
        }
    }

    pub fn write32(&mut self, lease: MmioLease, offset: u32, value: u32) -> (result: Result<
        (),
        HermesPlatformError,
    >)
        ensures
            final(self).trace.follows(&old(self).trace),
            final(self).same_device(old(self)),
            forall|log: Seq<PlatformEvent>| #[trigger]
                crate::trace::continues(log, final(self).log()) ==> write_run(
                    old(self).state@,
                    lease,
                    offset,
                    value,
                    log,
                    old(self).log().len() as int,
                ) == Some(
                    (result, final(self).state@, final(self).log().len() as int),
                ),
    {
        match self.register_place(lease, offset) {
            Err(error) => Err(error),
            Ok(address) => {
                self.trace.store(address, value);
                assert(self.log()[old(self).log().len() as int] == PlatformEvent::Store {
                    address,
                    value,
                });
                Ok(())
            },
        }
    }

    pub fn revoke_bar(&mut self, lease: MmioLease) -> (result: Result<(), HermesPlatformError>)
        ensures
            final(self).trace.follows(&old(self).trace),
            final(self).same_device(old(self)),
            forall|log: Seq<PlatformEvent>| #[trigger]
                crate::trace::continues(log, final(self).log()) ==> revoke_bar_run(
                    old(self).present,
                    old(self).state@,
                    lease,
                    log,
                    old(self).log().len() as int,
                ) == Some(
                    (result, final(self).state@, final(self).log().len() as int),
                ),
    {
        if !self.present.mmio {
            return Err(HermesPlatformError::MissingMmioService);
        }
        let record = match self.state.mmio_record(lease) {
            Err(error) => {
                return Err(error);
            },
            Ok(record) => record,
        };
        let status: i32 = self.trace.unmap(record.backend);
        assert(self.log()[old(self).log().len() as int] == PlatformEvent::Close {
            mapping: record.backend,
            status,
        });
        if status != STATUS_OK {
            return Err(HermesPlatformError::Backend(status));
        }
        self.state.bars[lease.slot as usize] = MmioRecord {
            active: false,
            pointer: 0,
            length: 0,
            ..record
        };
        Ok(())
    }

    fn free_slot(&self) -> (result: Option<usize>)
        ensures
            free_dma_slot(self.state.dma@, 0) == (match result {
                None => None::<int>,
                Some(slot) => Some(slot as int),
            }),
            result matches Some(slot) ==> slot < 8 && self.state.dma@[slot as int].generation
                != u32::MAX,
    {
        let mut index: usize = 0;
        while index < MAXIMUM_DMA_LEASES
            invariant
                index <= 8,
                free_dma_slot(self.state.dma@, 0) == free_dma_slot(self.state.dma@, index as int),
            decreases 8 - index,
        {
            let record = self.state.dma[index];
            if !record.active && record.generation != u32::MAX {
                return Some(index);
            }
            index = index + 1;
        }
        None
    }

    pub fn allocate_dma(
        &mut self,
        domain: DomainLease,
        length: usize,
        alignment: usize,
        purpose: DmaPurpose,
    ) -> (result: Result<AllocatedDma, HermesPlatformError>)
        ensures
            final(self).trace.follows(&old(self).trace),
            final(self).same_device(old(self)),
            forall|log: Seq<PlatformEvent>| #[trigger]
                crate::trace::continues(log, final(self).log()) ==> allocate_run(
                    old(self).present,
                    old(self).state@,
                    domain,
                    length,
                    alignment,
                    purpose,
                    log,
                    old(self).log().len() as int,
                ) == Some(
                    (result, final(self).state@, final(self).log().len() as int),
                ),
    {
        if !self.present.dma {
            return Err(HermesPlatformError::MissingDmaService);
        }
        if length == 0 || !is_power_of_two(alignment as u64) {
            return Err(HermesPlatformError::InvalidRequest);
        }
        let supported: bool = self.trace.supports(purpose);
        let ghost asked = self.log();
        assert(asked[old(self).log().len() as int] == PlatformEvent::Supports {
            purpose,
            reply: supported,
        });
        if !supported {
            return Err(HermesPlatformError::InvalidRequest);
        }
        let backend_domain: u64 = match self.state.domain(domain) {
            Err(error) => {
                return Err(error);
            },
            Ok(backend) => backend,
        };
        let slot: usize = match self.free_slot() {
            None => {
                return Err(HermesPlatformError::LeaseCapacity);
            },
            Some(slot) => slot,
        };
        let reply = self.trace.allocate(backend_domain, length, alignment, purpose);
        assert(self.log()[asked.len() as int] == PlatformEvent::Allocate {
            domain: backend_domain,
            length,
            alignment,
            purpose,
            reply,
        });
        let allocation = match reply {
            Err(status) => {
                return Err(HermesPlatformError::Backend(status));
            },
            Ok(allocation) => allocation,
        };
        let generation: u32 = self.state.dma[slot].generation + 1;
        self.state.dma[slot] = DmaRecord {
            backend: allocation.handle,
            device_address: allocation.device_address,
            length,
            alignment,
            purpose,
            generation,
            active: true,
        };
        assert(alignment > 0);
        if allocation.handle == 0 || allocation.device_address == 0 || allocation.device_address % (
        alignment as u64) != 0 {
            return Err(HermesPlatformError::InvalidRequest);
        }
        Ok(
            AllocatedDma {
                lease: DmaLease { slot: slot as u8, generation },
                device_address: allocation.device_address,
                length,
                alignment,
                purpose,
            },
        )
    }

    fn span(&self, lease: DmaLease, offset: usize, length: usize) -> (result: Result<
        DmaRecord,
        HermesPlatformError,
    >)
        ensures
            result == spanned(self.present, self.state@, lease, offset, length),
    {
        if !self.present.dma {
            return Err(HermesPlatformError::MissingDmaService);
        }
        match self.state.dma_record(lease) {
            Err(error) => Err(error),
            Ok(record) => match validate_span(record.length, offset, length) {
                Err(error) => Err(error),
                Ok(_) => Ok(record),
            },
        }
    }

    pub fn dma_write(&mut self, lease: DmaLease, offset: usize, bytes: &[u8]) -> (result: Result<
        (),
        HermesPlatformError,
    >)
        ensures
            final(self).trace.follows(&old(self).trace),
            final(self).same_device(old(self)),
            forall|log: Seq<PlatformEvent>| #[trigger]
                crate::trace::continues(log, final(self).log()) ==> dma_write_run(
                    old(self).present,
                    old(self).state@,
                    lease,
                    offset,
                    bytes@,
                    log,
                    old(self).log().len() as int,
                ) == Some(
                    (result, final(self).state@, final(self).log().len() as int),
                ),
    {
        match self.span(lease, offset, bytes.len()) {
            Err(error) => Err(error),
            Ok(record) => {
                let status: i32 = self.trace.write(record.backend, offset, bytes);
                assert(self.log()[old(self).log().len() as int] == PlatformEvent::Write {
                    allocation: record.backend,
                    offset,
                    bytes: bytes@,
                    status,
                });
                settled(status)
            },
        }
    }

    pub fn dma_read(&mut self, lease: DmaLease, offset: usize, bytes: &mut [u8]) -> (result: Result<
        (),
        HermesPlatformError,
    >)
        ensures
            final(self).trace.follows(&old(self).trace),
            final(self).same_device(old(self)),
            forall|log: Seq<PlatformEvent>| #[trigger]
                crate::trace::continues(log, final(self).log()) ==> dma_read_run(
                    old(self).present,
                    old(self).state@,
                    lease,
                    offset,
                    old(bytes)@,
                    final(bytes)@,
                    log,
                    old(self).log().len() as int,
                ) == Some(
                    (result, final(self).state@, final(self).log().len() as int),
                ),
    {
        match self.span(lease, offset, bytes.len()) {
            Err(error) => Err(error),
            Ok(record) => {
                let status: i32 = self.trace.read(record.backend, offset, bytes);
                settled(status)
            },
        }
    }

    pub fn dma_publish(&mut self, lease: DmaLease, offset: usize, length: usize) -> (result: Result<
        (),
        HermesPlatformError,
    >)
        ensures
            final(self).trace.follows(&old(self).trace),
            final(self).same_device(old(self)),
            forall|log: Seq<PlatformEvent>| #[trigger]
                crate::trace::continues(log, final(self).log()) ==> visibility_run(
                    old(self).present,
                    old(self).state@,
                    lease,
                    offset,
                    length,
                    true,
                    log,
                    old(self).log().len() as int,
                ) == Some(
                    (result, final(self).state@, final(self).log().len() as int),
                ),
    {
        self.dma_visibility(lease, offset, length, true)
    }

    pub fn dma_acquire(&mut self, lease: DmaLease, offset: usize, length: usize) -> (result: Result<
        (),
        HermesPlatformError,
    >)
        ensures
            final(self).trace.follows(&old(self).trace),
            final(self).same_device(old(self)),
            forall|log: Seq<PlatformEvent>| #[trigger]
                crate::trace::continues(log, final(self).log()) ==> visibility_run(
                    old(self).present,
                    old(self).state@,
                    lease,
                    offset,
                    length,
                    false,
                    log,
                    old(self).log().len() as int,
                ) == Some(
                    (result, final(self).state@, final(self).log().len() as int),
                ),
    {
        self.dma_visibility(lease, offset, length, false)
    }

    fn dma_visibility(
        &mut self,
        lease: DmaLease,
        offset: usize,
        length: usize,
        publish: bool,
    ) -> (result: Result<(), HermesPlatformError>)
        ensures
            final(self).trace.follows(&old(self).trace),
            final(self).same_device(old(self)),
            forall|log: Seq<PlatformEvent>| #[trigger]
                crate::trace::continues(log, final(self).log()) ==> visibility_run(
                    old(self).present,
                    old(self).state@,
                    lease,
                    offset,
                    length,
                    publish,
                    log,
                    old(self).log().len() as int,
                ) == Some(
                    (result, final(self).state@, final(self).log().len() as int),
                ),
    {
        match self.span(lease, offset, length) {
            Err(error) => Err(error),
            Ok(record) => {
                let status: i32 = if publish {
                    self.trace.publish(record.backend, offset, length)
                } else {
                    self.trace.acquire(record.backend, offset, length)
                };
                settled(status)
            },
        }
    }

    pub fn revoke_dma(&mut self, lease: DmaLease) -> (result: Result<(), HermesPlatformError>)
        ensures
            final(self).trace.follows(&old(self).trace),
            final(self).same_device(old(self)),
            forall|log: Seq<PlatformEvent>| #[trigger]
                crate::trace::continues(log, final(self).log()) ==> revoke_dma_run(
                    old(self).present,
                    old(self).state@,
                    lease,
                    log,
                    old(self).log().len() as int,
                ) == Some(
                    (result, final(self).state@, final(self).log().len() as int),
                ),
    {
        if !self.present.dma {
            return Err(HermesPlatformError::MissingDmaService);
        }
        let record = match self.state.dma_record(lease) {
            Err(error) => {
                return Err(error);
            },
            Ok(record) => record,
        };
        let status: i32 = self.trace.release(self.state.domain.backend, record.backend);
        if status != STATUS_OK {
            return Err(HermesPlatformError::Backend(status));
        }
        self.state.dma[lease.slot as usize] = DmaRecord {
            active: false,
            length: 0,
            device_address: 0,
            alignment: 0,
            ..record
        };
        Ok(())
    }

    /// Registers the fingerprinted interrupt and enables it.
    pub fn register_irq(&mut self, domain: DomainLease) -> (result: Result<
        IrqLease,
        HermesPlatformError,
    >)
        ensures
            final(self).trace.follows(&old(self).trace),
            final(self).same_device(old(self)),
            forall|log: Seq<PlatformEvent>| #[trigger]
                crate::trace::continues(log, final(self).log()) ==> register_run(
                    old(self).fingerprint,
                    old(self).present,
                    old(self).state@,
                    domain,
                    log,
                    old(self).log().len() as int,
                ) == Some(
                    (result, final(self).state@, final(self).log().len() as int),
                ),
    {
        if !self.present.irq {
            return Err(HermesPlatformError::MissingIrqService);
        }
        if self.fingerprint.interrupt_pin == 0 || self.fingerprint.interrupt_line == u8::MAX {
            return Err(HermesPlatformError::InvalidRequest);
        }
        match self.state.domain(domain) {
            Err(error) => {
                return Err(error);
            },
            Ok(_) => {},
        }
        if self.state.irq.active {
            return Err(HermesPlatformError::ResourcesStillLive);
        }
        let generation: u32 = match next_generation(self.state.irq.generation) {
            Err(error) => {
                return Err(error);
            },
            Ok(generation) => generation,
        };
        let line: u32 = self.fingerprint.interrupt_line as u32;
        let reply = self.trace.register(line);
        let ghost registered = self.log();
        assert(registered[old(self).log().len() as int] == PlatformEvent::Register {
            line,
            flags: 0,
            reply,
        });
        let backend: u64 = match reply {
            Err(status) => {
                return Err(HermesPlatformError::Backend(status));
            },
            Ok(backend) => backend,
        };
        if backend == 0 {
            return Err(HermesPlatformError::InvalidRequest);
        }
        self.state.irq = IrqRecord { backend, generation, enabled: false, active: true };
        let enabled: i32 = self.trace.set_enabled(backend, true);
        let ghost switched = self.log();
        assert(switched[registered.len() as int] == PlatformEvent::Enable {
            interrupt: backend,
            enabled: true,
            status: enabled,
        });
        if enabled != STATUS_OK {
            let removed: i32 = self.trace.unregister(backend);
            assert(self.log()[switched.len() as int] == PlatformEvent::Unregister {
                interrupt: backend,
                status: removed,
            });
            if removed == STATUS_OK {
                self.state.irq.active = false;
            }
            return Err(HermesPlatformError::Backend(enabled));
        }
        self.state.irq.enabled = true;
        Ok(IrqLease { generation })
    }

    /// Disables and unregisters the interrupt as far as it goes.
    fn remove_irq(&mut self) -> (status: i32)
        ensures
            final(self).trace.follows(&old(self).trace),
            final(self).same_device(old(self)),
            final(self).state.domain == old(self).state.domain,
            final(self).state.bars == old(self).state.bars,
            final(self).state.dma == old(self).state.dma,
            forall|log: Seq<PlatformEvent>| #[trigger]
                crate::trace::continues(log, final(self).log()) ==> removal_run(
                    old(self).state.irq,
                    log,
                    old(self).log().len() as int,
                ) == Some((status, final(self).state.irq, final(self).log().len() as int)),
    {
        let backend: u64 = self.state.irq.backend;
        if self.state.irq.enabled {
            let disabled: i32 = self.trace.set_enabled(backend, false);
            assert(self.log()[old(self).log().len() as int] == PlatformEvent::Enable {
                interrupt: backend,
                enabled: false,
                status: disabled,
            });
            if disabled != STATUS_OK {
                return disabled;
            }
            self.state.irq.enabled = false;
        }
        let ghost head = self.log();
        let removed: i32 = self.trace.unregister(backend);
        assert(self.log()[head.len() as int] == PlatformEvent::Unregister {
            interrupt: backend,
            status: removed,
        });
        removed
    }

    pub fn revoke_irq(&mut self, lease: IrqLease) -> (result: Result<(), HermesPlatformError>)
        ensures
            final(self).trace.follows(&old(self).trace),
            final(self).same_device(old(self)),
            forall|log: Seq<PlatformEvent>| #[trigger]
                crate::trace::continues(log, final(self).log()) ==> revoke_irq_run(
                    old(self).present,
                    old(self).state@,
                    lease,
                    log,
                    old(self).log().len() as int,
                ) == Some(
                    (result, final(self).state@, final(self).log().len() as int),
                ),
    {
        if !self.present.irq {
            return Err(HermesPlatformError::MissingIrqService);
        }
        if !self.state.irq.active || self.state.irq.generation != lease.generation {
            return Err(HermesPlatformError::StaleLease);
        }
        let status: i32 = self.remove_irq();
        if status != STATUS_OK {
            return Err(HermesPlatformError::Backend(status));
        }
        self.state.irq.active = false;
        Ok(())
    }

    fn cleanup_irq(&mut self, report: CleanupReport) -> (after: CleanupReport)
        ensures
            final(self).trace.follows(&old(self).trace),
            final(self).same_device(old(self)),
            final(self).state.domain == old(self).state.domain,
            final(self).state.bars == old(self).state.bars,
            final(self).state.dma == old(self).state.dma,
            forall|log: Seq<PlatformEvent>| #[trigger]
                crate::trace::continues(log, final(self).log()) ==> irq_cleanup_run(
                    old(self).present,
                    old(self).state.irq,
                    report,
                    log,
                    old(self).log().len() as int,
                ) == Some((final(self).state.irq, after, final(self).log().len() as int)),
    {
        if !self.state.irq.active {
            return report;
        }
        let status: i32 = if !self.present.irq {
            STATUS_UNSUPPORTED
        } else {
            self.remove_irq()
        };
        if status == STATUS_OK {
            self.state.irq.active = false;
            report
        } else {
            CleanupReport { pending_irq: true, ..report }.with_status(status)
        }
    }

    fn cleanup_dma(&mut self, domain: u64, report: CleanupReport) -> (after: CleanupReport)
        ensures
            final(self).trace.follows(&old(self).trace),
            final(self).same_device(old(self)),
            final(self).state.domain == old(self).state.domain,
            final(self).state.bars == old(self).state.bars,
            final(self).state.irq == old(self).state.irq,
            forall|log: Seq<PlatformEvent>| #[trigger]
                crate::trace::continues(log, final(self).log()) ==> dma_cleanup_run(
                    old(self).present,
                    domain,
                    old(self).state.dma@,
                    8,
                    report,
                    log,
                    old(self).log().len() as int,
                ) == Some((final(self).state.dma@, after, final(self).log().len() as int)),
    {
        let ghost start = self.log().len() as int;
        let mut after = report;
        let mut remaining: usize = 8;
        while remaining > 0
            invariant
                remaining <= 8,
                start == old(self).log().len(),
                self.same_device(old(self)),
                self.state.domain == old(self).state.domain,
                self.state.bars == old(self).state.bars,
                self.state.irq == old(self).state.irq,
                self.trace.follows(&old(self).trace),
                forall|log: Seq<PlatformEvent>| #[trigger]
                    crate::trace::continues(log, self.log()) ==> dma_cleanup_run(
                        old(self).present,
                        domain,
                        old(self).state.dma@,
                        8,
                        report,
                        log,
                        start,
                    ) == dma_cleanup_run(
                        old(self).present,
                        domain,
                        self.state.dma@,
                        remaining as nat,
                        after,
                        log,
                        self.log().len() as int,
                    ),
            decreases remaining,
        {
            let index: usize = remaining - 1;
            let record = self.state.dma[index];
            let ghost head = self.log();
            let ghost before = self.state.dma@;
            if record.active {
                let status: i32 = if !self.present.dma {
                    STATUS_UNSUPPORTED
                } else {
                    self.trace.release(domain, record.backend)
                };
                if status == STATUS_OK {
                    self.state.dma[index] = DmaRecord { active: false, ..record };
                    assert(self.state.dma@ =~= before.update(
                        index as int,
                        DmaRecord { active: false, ..record },
                    ));
                } else {
                    after = CleanupReport {
                        pending_dma: after.pending_dma | (1u16 << (index as u16)),
                        ..after
                    }.with_status(status);
                }
            }
            remaining = index;
        }
        after
    }

    fn cleanup_bars(&mut self, report: CleanupReport) -> (after: CleanupReport)
        ensures
            final(self).trace.follows(&old(self).trace),
            final(self).same_device(old(self)),
            final(self).state.domain == old(self).state.domain,
            final(self).state.dma == old(self).state.dma,
            final(self).state.irq == old(self).state.irq,
            forall|log: Seq<PlatformEvent>| #[trigger]
                crate::trace::continues(log, final(self).log()) ==> bar_cleanup_run(
                    old(self).present,
                    old(self).state.bars@,
                    6,
                    report,
                    log,
                    old(self).log().len() as int,
                ) == Some((final(self).state.bars@, after, final(self).log().len() as int)),
    {
        let ghost start = self.log().len() as int;
        let mut after = report;
        let mut remaining: usize = 6;
        while remaining > 0
            invariant
                remaining <= 6,
                start == old(self).log().len(),
                self.same_device(old(self)),
                self.state.domain == old(self).state.domain,
                self.state.dma == old(self).state.dma,
                self.state.irq == old(self).state.irq,
                self.trace.follows(&old(self).trace),
                forall|log: Seq<PlatformEvent>| #[trigger]
                    crate::trace::continues(log, self.log()) ==> bar_cleanup_run(
                        old(self).present,
                        old(self).state.bars@,
                        6,
                        report,
                        log,
                        start,
                    ) == bar_cleanup_run(
                        old(self).present,
                        self.state.bars@,
                        remaining as nat,
                        after,
                        log,
                        self.log().len() as int,
                    ),
            decreases remaining,
        {
            let index: usize = remaining - 1;
            let record = self.state.bars[index];
            let ghost before = self.state.bars@;
            if record.active {
                let status: i32 = if !self.present.mmio {
                    STATUS_UNSUPPORTED
                } else {
                    self.trace.unmap(record.backend)
                };
                if status == STATUS_OK {
                    self.state.bars[index] = MmioRecord { active: false, pointer: 0, ..record };
                    assert(self.state.bars@ =~= before.update(
                        index as int,
                        MmioRecord { active: false, pointer: 0, ..record },
                    ));
                } else {
                    after = CleanupReport {
                        pending_bars: after.pending_bars | (1u8 << (index as u8)),
                        ..after
                    }.with_status(status);
                }
            }
            remaining = index;
        }
        after
    }

    fn cleanup_domain(&mut self, report: CleanupReport) -> (result: Result<(), CleanupReport>)
        ensures
            final(self).trace.follows(&old(self).trace),
            final(self).same_device(old(self)),
            forall|log: Seq<PlatformEvent>| #[trigger]
                crate::trace::continues(log, final(self).log()) ==> domain_cleanup_run(
                    old(self).present,
                    old(self).state@,
                    report,
                    log,
                    old(self).log().len() as int,
                ) == Some(
                    (result, final(self).state@, final(self).log().len() as int),
                ),
    {
        let stays = CleanupReport { pending_domain: true, ..report };
        if report.pending_irq || report.pending_dma != 0 || report.pending_bars != 0 {
            return Err(stays);
        }
        if !self.present.isolation {
            return Err(stays.with_status(STATUS_UNSUPPORTED));
        }
        let status: i32 = self.trace.release_domain(self.state.domain.backend);
        if status != STATUS_OK {
            return Err(stays.with_status(status));
        }
        self.state.domain.active = false;
        Ok(())
    }

    /// Gives back all that is leased, in reverse. What fails stays in the ledger,
    /// for the next try.
    pub fn cleanup(&mut self, domain: DomainLease) -> (result: Result<(), CleanupReport>)
        ensures
            final(self).trace.follows(&old(self).trace),
            final(self).same_device(old(self)),
            forall|log: Seq<PlatformEvent>| #[trigger]
                crate::trace::continues(log, final(self).log()) ==> cleanup_run(
                    old(self).present,
                    old(self).state@,
                    domain,
                    log,
                    old(self).log().len() as int,
                ) == Some(
                    (result, final(self).state@, final(self).log().len() as int),
                ),
    {
        let backend: u64 = match self.state.domain(domain) {
            Err(_) => {
                return Err(
                    CleanupReport {
                        pending_domain: true,
                        first_status: STATUS_NOT_FOUND,
                        ..CleanupReport::empty()
                    },
                );
            },
            Ok(backend) => backend,
        };
        let interrupted = self.cleanup_irq(CleanupReport::empty());
        let released = self.cleanup_dma(backend, interrupted);
        let unmapped = self.cleanup_bars(released);
        let ghost cleaned = self.state@;
        assert(cleaned =~= (LeaseBook {
            irq: self.state.irq,
            dma: self.state.dma@,
            bars: self.state.bars@,
            ..old(self).state@
        }));
        self.cleanup_domain(unmapped)
    }

    pub fn retry_cleanup(&mut self) -> (result: Result<(), CleanupReport>)
        ensures
            final(self).trace.follows(&old(self).trace),
            final(self).same_device(old(self)),
            forall|log: Seq<PlatformEvent>| #[trigger]
                crate::trace::continues(log, final(self).log()) ==> cleanup_run(
                    old(self).present,
                    old(self).state@,
                    (DomainLease { generation: old(self).state.domain.generation }),
                    log,
                    old(self).log().len() as int,
                ) == Some(
                    (result, final(self).state@, final(self).log().len() as int),
                ),
    {
        let domain = DomainLease { generation: self.state.domain.generation };
        self.cleanup(domain)
    }
}

/// Whether a BAR's words, length and flags agree.
pub open spec fn bar_usable(fingerprint: GpuFingerprint, bar: int) -> bool {
    let evidence = fingerprint.bars[bar];
    crate::hermes_gsp::power_of_two(evidence.length as nat) && (bar_physical_address(
        evidence.raw_low,
        evidence.raw_high,
        evidence.flags,
    ) matches Ok(address) && address % evidence.length == 0)
}

/// Whether the DMA service has a purpose, if it is asked at all.
pub open spec fn asked_run(
    earlier: Option<(bool, int)>,
    purpose: DmaPurpose,
    log: Seq<PlatformEvent>,
) -> Option<(bool, int)> {
    match earlier {
        Some((true, at)) => match supports_at(purpose, log, at) {
            None => None,
            Some(reply) => Some((reply, at + 1)),
        },
        other => other,
    }
}

/// Which services a device can use.
pub open spec fn services_run(
    fingerprint: GpuFingerprint,
    present: HermesServicePresence,
    log: Seq<PlatformEvent>,
    at: int,
) -> Option<(HermesKernelServices, int)> {
    let rings = asked_run(
        asked_run(Some((present.isolation && present.dma, at)), DmaPurpose::CommandRing, log),
        DmaPurpose::EventRing,
        log,
    );
    match (rings, asked_run(rings, DmaPurpose::Firmware, log)) {
        (Some((dma, _)), Some((firmware_dma, end))) => Some(
            (
                HermesKernelServices {
                    isolation: present.isolation,
                    mmio: present.isolation && present.mmio && exists|bar: int|
                        0 <= bar < 6 && #[trigger] bar_usable(fingerprint, bar),
                    dma,
                    irq: present.isolation && present.irq && fingerprint.interrupt_pin != 0
                        && fingerprint.interrupt_line != u8::MAX,
                    firmware_dma,
                },
                end,
            ),
        ),
        _ => None,
    }
}

/// Whether a window is the one that its lease stands for.
pub open spec fn window_genuine(book: LeaseBook, window: MmioWindow<MmioLease>) -> bool {
    book.mmio_of(window.handle) matches Ok(record) && window.bar == window.handle.slot
        && window.length == record.length
}

/// Whether a region is the one that its lease stands for.
pub open spec fn region_genuine(book: LeaseBook, region: DmaRegion<DmaLease>) -> bool {
    book.dma_of(region.handle) matches Ok(record) && region.device_address
        == record.device_address && region.length == record.length && region.alignment
        == record.alignment && region.purpose == record.purpose
}

/// A result as a transport sees it.
pub open spec fn seen_as<T>(result: Result<T, HermesPlatformError>, fault: HermesFault) -> Result<
    T,
    HermesFault,
> {
    match result {
        Ok(value) => Ok(value),
        Err(_) => Err(fault),
    }
}

impl<K: HermesKernel, D: HermesDomainDmaService> KernelHermesPlatform<K, D> {
    fn bar_evidence(&self) -> (result: bool)
        ensures
            result == exists|bar: int|
                0 <= bar < 6 && #[trigger] bar_usable(self.fingerprint, bar),
    {
        let mut bar: usize = 0;
        while bar < BAR_COUNT
            invariant
                bar <= 6,
                forall|i: int| 0 <= i < bar ==> !(#[trigger] bar_usable(self.fingerprint, i)),
            decreases 6 - bar,
        {
            let evidence = self.fingerprint.bars[bar];
            if evidence.length != 0 && is_power_of_two(evidence.length) {
                match bar_physical_address(evidence.raw_low, evidence.raw_high, evidence.flags) {
                    Err(_) => {},
                    Ok(address) => {
                        if address % evidence.length == 0 {
                            assert(bar_usable(self.fingerprint, bar as int));
                            return true;
                        }
                    },
                }
            }
            assert(!bar_usable(self.fingerprint, bar as int));
            bar = bar + 1;
        }
        false
    }

    pub fn available_services(&mut self) -> (services: HermesKernelServices)
        ensures
            final(self).trace.follows(&old(self).trace),
            final(self).same_device(old(self)),
            final(self).state == old(self).state,
            forall|log: Seq<PlatformEvent>| #[trigger]
                crate::trace::continues(log, final(self).log()) ==> services_run(
                    old(self).fingerprint,
                    old(self).present,
                    log,
                    old(self).log().len() as int,
                ) == Some((services, final(self).log().len() as int)),
    {
        let isolated: bool = self.present.isolation;
        let mut dma: bool = isolated && self.present.dma;
        if dma {
            let ghost head = self.log();
            dma = self.trace.supports(DmaPurpose::CommandRing);
            assert(self.log()[head.len() as int] == PlatformEvent::Supports {
                purpose: DmaPurpose::CommandRing,
                reply: dma,
            });
        }
        if dma {
            let ghost head = self.log();
            dma = self.trace.supports(DmaPurpose::EventRing);
            assert(self.log()[head.len() as int] == PlatformEvent::Supports {
                purpose: DmaPurpose::EventRing,
                reply: dma,
            });
        }
        let mut firmware_dma: bool = dma;
        if dma {
            let ghost head = self.log();
            firmware_dma = self.trace.supports(DmaPurpose::Firmware);
            assert(self.log()[head.len() as int] == PlatformEvent::Supports {
                purpose: DmaPurpose::Firmware,
                reply: firmware_dma,
            });
        }
        let mmio_evidence: bool = self.bar_evidence();
        let irq_evidence: bool = self.fingerprint.interrupt_pin != 0
            && self.fingerprint.interrupt_line != u8::MAX;
        HermesKernelServices {
            isolation: isolated,
            mmio: isolated && self.present.mmio && mmio_evidence,
            dma,
            irq: isolated && self.present.irq && irq_evidence,
            firmware_dma,
        }
    }

    pub fn validate_mmio_window(&self, window: MmioWindow<MmioLease>) -> (result: Result<
        (),
        HermesPlatformError,
    >)
        ensures
            result == (if window_genuine(self.state@, window) {
                Ok::<(), HermesPlatformError>(())
            } else {
                Err(HermesPlatformError::StaleLease)
            }),
    {
        match self.state.mmio_record(window.handle) {
            Err(error) => Err(error),
            Ok(record) => if window.bar == window.handle.slot && window.length == record.length {
                Ok(())
            } else {
                Err(HermesPlatformError::StaleLease)
            },
        }
    }

    pub fn validate_dma_region(&self, region: DmaRegion<DmaLease>) -> (result: Result<
        (),
        HermesPlatformError,
    >)
        ensures
            result == (if region_genuine(self.state@, region) {
                Ok::<(), HermesPlatformError>(())
            } else {
                Err(HermesPlatformError::StaleLease)
            }),
    {
        match self.state.dma_record(region.handle) {
            Err(error) => Err(error),
            Ok(record) => if region.device_address == record.device_address && region.length
                == record.length && region.alignment == record.alignment && region.purpose
                == record.purpose {
                Ok(())
            } else {
                Err(HermesPlatformError::StaleLease)
            },
        }
    }
}

/// One exchange of a transport with a port.
pub enum PortCall {
    Isolate { identity: HermesPciIdentity, reply: Result<DomainLease, HermesFault> },
    ReleaseDomain { domain: DomainLease },
    MapBar {
        domain: DomainLease,
        bar: u8,
        minimum_length: u64,
        reply: Result<MmioWindow<MmioLease>, HermesFault>,
    },
    UnmapBar { window: MmioWindow<MmioLease> },
    Read { window: MmioWindow<MmioLease>, offset: u32, reply: Result<u32, HermesFault> },
    Write {
        window: MmioWindow<MmioLease>,
        offset: u32,
        value: u32,
        reply: Result<(), HermesFault>,
    },
    Fence { reply: Result<(), HermesFault> },
    Allocate {
        domain: DomainLease,
        length: usize,
        alignment: usize,
        purpose: DmaPurpose,
        reply: Result<DmaRegion<DmaLease>, HermesFault>,
    },
    ReleaseDma { region: DmaRegion<DmaLease> },
    DmaWrite {
        region: DmaRegion<DmaLease>,
        offset: usize,
        bytes: Seq<u8>,
        reply: Result<(), HermesFault>,
    },
    DmaRead {
        region: DmaRegion<DmaLease>,
        offset: usize,
        room: nat,
        bytes: Seq<u8>,
        reply: Result<(), HermesFault>,
    },
    Publish {
        region: DmaRegion<DmaLease>,
        offset: usize,
        length: usize,
        reply: Result<(), HermesFault>,
    },
    Acquire {
        region: DmaRegion<DmaLease>,
        offset: usize,
        length: usize,
        reply: Result<(), HermesFault>,
    },
    Now { tick: u64 },
    Relax,
}

impl PortCall {
    /// The exchange as the transport's transcript holds it.
    pub open spec fn event<K: HermesKernel, D: HermesDomainDmaService>(self) -> HermesEvent<
        HermesPort<K, D>,
    > {
        match self {
            PortCall::Isolate { identity, reply } => HermesEvent::Isolate {
                identity,
                reply,
            },
            PortCall::ReleaseDomain { domain } => HermesEvent::ReleaseDomain {
                domain,
            },
            PortCall::MapBar { domain, bar, minimum_length, reply } => HermesEvent::MapBar {
                domain,
                bar,
                minimum_length,
                reply,
            },
            PortCall::UnmapBar { window } => HermesEvent::UnmapBar {
                window,
            },
            PortCall::Read { window, offset, reply } => HermesEvent::Read {
                window,
                offset,
                reply,
            },
            PortCall::Write { window, offset, value, reply } => HermesEvent::Write {
                window,
                offset,
                value,
                reply,
            },
            PortCall::Fence { reply } => HermesEvent::Fence {
                reply,
            },
            PortCall::Allocate {
                domain,
                length,
                alignment,
                purpose,
                reply,
            } => HermesEvent::Allocate {
                domain,
                length,
                alignment,
                purpose,
                reply,
            },
            PortCall::ReleaseDma { region } => HermesEvent::ReleaseDma {
                region,
            },
            PortCall::DmaWrite { region, offset, bytes, reply } => HermesEvent::DmaWrite {
                region,
                offset,
                bytes,
                reply,
            },
            PortCall::DmaRead { region, offset, room, bytes, reply } => HermesEvent::DmaRead {
                region,
                offset,
                room,
                bytes,
                reply,
            },
            PortCall::Publish { region, offset, length, reply } => HermesEvent::Publish {
                region,
                offset,
                length,
                reply,
            },
            PortCall::Acquire { region, offset, length, reply } => HermesEvent::Acquire {
                region,
                offset,
                length,
                reply,
            },
            PortCall::Now { tick } => HermesEvent::Now {
                tick,
            },
            PortCall::Relax => HermesEvent::Relax,
        }
    }
}

/// A platform as a transport sees it: every fault is one of the transport's own, and
/// only genuine windows and regions are worked on.
pub struct HermesPort<K, D> {
    pub kernel: KernelHermesPlatform<K, D>,
    pub asked: Ghost<Seq<PortCall>>,
}

/// The exchanges of a port as the transport's transcript holds them.
pub open spec fn port_history<K: HermesKernel, D: HermesDomainDmaService>(
    asked: Seq<PortCall>,
) -> Seq<HermesEvent<HermesPort<K, D>>> {
    Seq::new(asked.len(), |i: int| asked[i].event())
}

impl<K: HermesKernel, D: HermesDomainDmaService> HermesPort<K, D> {
    pub fn new(kernel: KernelHermesPlatform<K, D>) -> (port: Self)
        ensures
            port.kernel == kernel,
            port.asked@ == Seq::<PortCall>::empty(),
    {
        HermesPort { kernel, asked: Ghost(Seq::empty()) }
    }

    proof fn lemma_asked(asked: Seq<PortCall>, call: PortCall)
        ensures
            port_history::<K, D>(asked.push(call)) == port_history::<K, D>(asked).push(
                call.event(),
            ),
    {
        assert(port_history::<K, D>(asked.push(call)) =~= port_history::<K, D>(asked).push(
            call.event(),
        ));
    }
}

impl<K: HermesKernel, D: HermesDomainDmaService> HermesPlatform for HermesPort<K, D> {
    type Domain = DomainLease;

    type Mmio = MmioLease;

    type Dma = DmaLease;

    open spec fn history(&self) -> Seq<HermesEvent<Self>> {
        port_history(self.asked@)
    }

    fn isolate_device(&mut self, identity: HermesPciIdentity) -> (result: Result<
        DomainLease,
        HermesFault,
    >)
        ensures
            final(self).kernel.trace.follows(&old(self).kernel.trace),
            final(self).kernel.same_device(&old(self).kernel),
            forall|log: Seq<PlatformEvent>| #[trigger]
                crate::trace::continues(log, final(self).kernel.log()) ==> (acquire_run(
                    old(self).kernel.fingerprint,
                    old(self).kernel.present,
                    old(self).kernel.state@,
                    identity,
                    log,
                    old(self).kernel.log().len() as int,
                ) matches Some(
                    (inner, book, next),
                ) && final(self).kernel.state@ == book && final(self).kernel.log().len() == next
                        && result == seen_as(inner, HermesFault::DeviceIsolation)),
    {
        let result = match self.kernel.acquire_domain(identity) {
            Err(_) => Err(HermesFault::DeviceIsolation),
            Ok(domain) => Ok(domain),
        };
        proof {
            let call = PortCall::Isolate { identity, reply: result };
            Self::lemma_asked(self.asked@, call);
            self.asked@ = self.asked@.push(call);
        }
        result
    }

    fn release_domain(&mut self, domain: DomainLease)
        ensures
            final(self).kernel.trace.follows(&old(self).kernel.trace),
            final(self).kernel.same_device(&old(self).kernel),
            forall|log: Seq<PlatformEvent>| #[trigger]
                crate::trace::continues(log, final(self).kernel.log()) ==> (cleanup_run(
                    old(self).kernel.present,
                    old(self).kernel.state@,
                    domain,
                    log,
                    old(self).kernel.log().len() as int,
                ) matches Some(
                    (_, book, next),
                ) && final(self).kernel.state@ == book && final(self).kernel.log().len() == next),
    {
        let _ = self.kernel.cleanup(domain);
        proof {
            let call = PortCall::ReleaseDomain { domain };
            Self::lemma_asked(self.asked@, call);
            self.asked@ = self.asked@.push(call);
        }
    }

    fn map_bar(&mut self, domain: DomainLease, bar: u8, minimum_length: u64) -> (result: Result<
        MmioWindow<MmioLease>,
        HermesFault,
    >)
        ensures
            final(self).kernel.trace.follows(&old(self).kernel.trace),
            final(self).kernel.same_device(&old(self).kernel),
            forall|log: Seq<PlatformEvent>| #[trigger]
                crate::trace::continues(log, final(self).kernel.log()) ==> (map_run(
                    old(self).kernel.fingerprint,
                    old(self).kernel.present,
                    old(self).kernel.state@,
                    domain,
                    bar,
                    minimum_length,
                    log,
                    old(self).kernel.log().len() as int,
                ) matches Some(
                    (inner, book, next),
                ) && final(self).kernel.state@ == book && final(self).kernel.log().len() == next
                        && result == (
                            match inner {
                                Ok(mapped) => Ok(
                                    MmioWindow {
                                        handle: mapped.lease,
                                        bar: mapped.bar,
                                        length: mapped.length,
                                    },
                                ),
                                Err(_) => Err(HermesFault::BarUnavailable),
                            }
                        )),
    {
        let result = match self.kernel.map_bar(domain, bar, minimum_length) {
            Err(_) => Err(HermesFault::BarUnavailable),
            Ok(mapped) => Ok(
                MmioWindow { handle: mapped.lease, bar: mapped.bar, length: mapped.length },
            ),
        };
        proof {
            let call = PortCall::MapBar { domain, bar, minimum_length, reply: result };
            Self::lemma_asked(self.asked@, call);
            self.asked@ = self.asked@.push(call);
        }
        result
    }

    fn unmap_bar(&mut self, window: MmioWindow<MmioLease>)
        ensures
            window.bar != window.handle.slot ==> final(self).kernel == old(self).kernel,
            window.bar == window.handle.slot ==> {
                &&& final(self).kernel.trace.follows(&old(self).kernel.trace)
                &&& final(self).kernel.same_device(&old(self).kernel)
                &&& forall|log: Seq<PlatformEvent>| #[trigger]
                    crate::trace::continues(log, final(self).kernel.log()) ==> (revoke_bar_run(
                        old(self).kernel.present,
                        old(self).kernel.state@,
                        window.handle,
                        log,
                        old(self).kernel.log().len() as int,
                    ) matches Some((_, book, next)) && final(self).kernel.state@ == book
                        && final(self).kernel.log().len() == next)
            },
    {
        if window.bar == window.handle.slot {
            let _ = self.kernel.revoke_bar(window.handle);
        }
        proof {
            let call = PortCall::UnmapBar { window };
            Self::lemma_asked(self.asked@, call);
            self.asked@ = self.asked@.push(call);
        }
    }

    fn read32(&mut self, window: MmioWindow<MmioLease>, offset: u32) -> (result: Result<
        u32,
        HermesFault,
    >)
        ensures
            !window_genuine(old(self).kernel.state@, window) ==>
                result == Err::<u32, _>(
                    HermesFault::MmioRead
                ) && final(self).kernel == old(self).kernel,
            window_genuine(old(self).kernel.state@, window) ==> {
                &&& final(self).kernel.trace.follows(&old(self).kernel.trace)
                &&& final(self).kernel.same_device(&old(self).kernel)
                &&& forall|log: Seq<PlatformEvent>| #[trigger]
                    crate::trace::continues(log, final(self).kernel.log()) ==> (read_run(
                        old(self).kernel.state@,
                        window.handle,
                        offset,
                        log,
                        old(self).kernel.log().len() as int,
                    ) matches Some(
                        (inner, book, next),
                    ) && final(self).kernel.state@ == book && final(self).kernel.log().len() == next
                        && result == seen_as(inner, HermesFault::MmioRead))
            },
    {
        let result = match self.kernel.validate_mmio_window(window) {
            Err(_) => Err(HermesFault::MmioRead),
            Ok(_) => match self.kernel.read32(window.handle, offset) {
                Err(_) => Err(HermesFault::MmioRead),
                Ok(value) => Ok(value),
            },
        };
        proof {
            let call = PortCall::Read { window, offset, reply: result };
            Self::lemma_asked(self.asked@, call);
            self.asked@ = self.asked@.push(call);
        }
        result
    }

    fn write32(
        &mut self,
        window: MmioWindow<MmioLease>,
        offset: u32,
        value: u32,
    ) -> (result: Result<
        (),
        HermesFault,
    >)
        ensures
            !window_genuine(old(self).kernel.state@, window) ==>
                result == Err::<(), _>(
                    HermesFault::MmioWrite
                ) && final(self).kernel == old(self).kernel,
            window_genuine(old(self).kernel.state@, window) ==> {
                &&& final(self).kernel.trace.follows(&old(self).kernel.trace)
                &&& final(self).kernel.same_device(&old(self).kernel)
                &&& forall|log: Seq<PlatformEvent>| #[trigger]
                    crate::trace::continues(log, final(self).kernel.log()) ==> (write_run(
                        old(self).kernel.state@,
                        window.handle,
                        offset,
                        value,
                        log,
                        old(self).kernel.log().len() as int,
                    ) matches Some(
                        (inner, book, next),
                    ) && final(self).kernel.state@ == book && final(self).kernel.log().len() == next
                        && result == seen_as(inner, HermesFault::MmioWrite))
            },
    {
        let result = match self.kernel.validate_mmio_window(window) {
            Err(_) => Err(HermesFault::MmioWrite),
            Ok(_) => match self.kernel.write32(window.handle, offset, value) {
                Err(_) => Err(HermesFault::MmioWrite),
                Ok(_) => Ok(()),
            },
        };
        proof {
            let call = PortCall::Write { window, offset, value, reply: result };
            Self::lemma_asked(self.asked@, call);
            self.asked@ = self.asked@.push(call);
        }
        result
    }

    fn io_fence(&mut self) -> (result: Result<(), HermesFault>)
        ensures
            result == Ok::<(), HermesFault>(()),
            final(self).kernel.state == old(self).kernel.state,
            final(self).kernel.same_device(&old(self).kernel),
            final(self).kernel.log() == old(self).kernel.log().push(PlatformEvent::Fence),
    {
        self.kernel.trace.fence();
        let result: Result<(), HermesFault> = Ok(());
        proof {
            let call = PortCall::Fence { reply: result };
            Self::lemma_asked(self.asked@, call);
            self.asked@ = self.asked@.push(call);
        }
        result
    }

    fn allocate_dma(
        &mut self,
        domain: DomainLease,
        length: usize,
        alignment: usize,
        purpose: DmaPurpose,
    ) -> (result: Result<DmaRegion<DmaLease>, HermesFault>)
        ensures
            final(self).kernel.trace.follows(&old(self).kernel.trace),
            final(self).kernel.same_device(&old(self).kernel),
            forall|log: Seq<PlatformEvent>| #[trigger]
                crate::trace::continues(log, final(self).kernel.log()) ==> (allocate_run(
                    old(self).kernel.present,
                    old(self).kernel.state@,
                    domain,
                    length,
                    alignment,
                    purpose,
                    log,
                    old(self).kernel.log().len() as int,
                ) matches Some(
                    (inner, book, next),
                ) && final(self).kernel.state@ == book && final(self).kernel.log().len() == next
                        && result == (
                            match inner {
                                Ok(taken) => Ok(
                                    DmaRegion {
                                        handle: taken.lease,
                                        device_address: taken.device_address,
                                        length: taken.length,
                                        alignment: taken.alignment,
                                        purpose: taken.purpose,
                                    },
                                ),
                                Err(_) => Err(HermesFault::DmaAllocation),
                            }
                        )),
    {
        let result = match self.kernel.allocate_dma(domain, length, alignment, purpose) {
            Err(_) => Err(HermesFault::DmaAllocation),
            Ok(taken) => Ok(
                DmaRegion {
                    handle: taken.lease,
                    device_address: taken.device_address,
                    length: taken.length,
                    alignment: taken.alignment,
                    purpose: taken.purpose,
                },
            ),
        };
        proof {
            let call = PortCall::Allocate { domain, length, alignment, purpose, reply: result };
            Self::lemma_asked(self.asked@, call);
            self.asked@ = self.asked@.push(call);
        }
        result
    }

    fn release_dma(&mut self, region: DmaRegion<DmaLease>)
        ensures
            !region_genuine(
                old(self).kernel.state@,
                region,
            ) ==> final(self).kernel == old(self).kernel,
            region_genuine(old(self).kernel.state@, region) ==> {
                &&& final(self).kernel.trace.follows(&old(self).kernel.trace)
                &&& final(self).kernel.same_device(&old(self).kernel)
                &&& forall|log: Seq<PlatformEvent>| #[trigger]
                    crate::trace::continues(log, final(self).kernel.log()) ==> (revoke_dma_run(
                        old(self).kernel.present,
                        old(self).kernel.state@,
                        region.handle,
                        log,
                        old(self).kernel.log().len() as int,
                    ) matches Some((_, book, next)) && final(self).kernel.state@ == book
                        && final(self).kernel.log().len() == next)
            },
    {
        match self.kernel.validate_dma_region(region) {
            Err(_) => {},
            Ok(_) => {
                let _ = self.kernel.revoke_dma(region.handle);
            },
        }
        proof {
            let call = PortCall::ReleaseDma { region };
            Self::lemma_asked(self.asked@, call);
            self.asked@ = self.asked@.push(call);
        }
    }

    fn dma_write(&mut self, region: DmaRegion<DmaLease>, offset: usize, bytes: &[u8]) -> (result:
        Result<(), HermesFault>)
        ensures
            !region_genuine(old(self).kernel.state@, region) ==>
                result == Err::<(), _>(
                    HermesFault::DmaAccess
                ) && final(self).kernel == old(self).kernel,
            region_genuine(old(self).kernel.state@, region) ==> {
                &&& final(self).kernel.trace.follows(&old(self).kernel.trace)
                &&& final(self).kernel.same_device(&old(self).kernel)
                &&& forall|log: Seq<PlatformEvent>| #[trigger]
                    crate::trace::continues(log, final(self).kernel.log()) ==> (dma_write_run(
                        old(self).kernel.present,
                        old(self).kernel.state@,
                        region.handle,
                        offset,
                        bytes@,
                        log,
                        old(self).kernel.log().len() as int,
                    ) matches Some(
                        (inner, book, next),
                    ) && final(self).kernel.state@ == book && final(self).kernel.log().len() == next
                        && result == seen_as(inner, HermesFault::DmaAccess))
            },
    {
        let result = match self.kernel.validate_dma_region(region) {
            Err(_) => Err(HermesFault::DmaAccess),
            Ok(_) => match self.kernel.dma_write(region.handle, offset, bytes) {
                Err(_) => Err(HermesFault::DmaAccess),
                Ok(_) => Ok(()),
            },
        };
        proof {
            let call = PortCall::DmaWrite { region, offset, bytes: bytes@, reply: result };
            Self::lemma_asked(self.asked@, call);
            self.asked@ = self.asked@.push(call);
        }
        result
    }

    fn dma_read(&mut self, region: DmaRegion<DmaLease>, offset: usize, bytes: &mut [u8]) -> (result:
        Result<(), HermesFault>)
        ensures
            !region_genuine(old(self).kernel.state@, region) ==> final(bytes)@ == old(bytes)@,
            !region_genuine(old(self).kernel.state@, region) ==>
                result == Err::<(), _>(
                    HermesFault::DmaAccess
                ) && final(self).kernel == old(self).kernel,
            region_genuine(old(self).kernel.state@, region) ==> {
                &&& final(self).kernel.trace.follows(&old(self).kernel.trace)
                &&& final(self).kernel.same_device(&old(self).kernel)
                &&& forall|log: Seq<PlatformEvent>| #[trigger]
                    crate::trace::continues(log, final(self).kernel.log()) ==> (dma_read_run(
                        old(self).kernel.present,
                        old(self).kernel.state@,
                        region.handle,
                        offset,
                        old(bytes)@,
                        final(bytes)@,
                        log,
                        old(self).kernel.log().len() as int,
                    ) matches Some(
                        (inner, book, next),
                    ) && final(self).kernel.state@ == book && final(self).kernel.log().len() == next
                        && result == seen_as(inner, HermesFault::DmaAccess))
            },
    {
        let ghost room = bytes@.len();
        let result = match self.kernel.validate_dma_region(region) {
            Err(_) => Err(HermesFault::DmaAccess),
            Ok(_) => match self.kernel.dma_read(region.handle, offset, bytes) {
                Err(_) => Err(HermesFault::DmaAccess),
                Ok(_) => Ok(()),
            },
        };
        proof {
            let call = PortCall::DmaRead { region, offset, room, bytes: bytes@, reply: result };
            Self::lemma_asked(self.asked@, call);
            self.asked@ = self.asked@.push(call);
        }
        result
    }

    fn dma_publish(&mut self, region: DmaRegion<DmaLease>, offset: usize, length: usize) -> (result:
        Result<(), HermesFault>)
        ensures
            !region_genuine(old(self).kernel.state@, region) ==>
                result == Err::<(), _>(
                    HermesFault::DmaAccess
                ) && final(self).kernel == old(self).kernel,
            region_genuine(old(self).kernel.state@, region) ==> {
                &&& final(self).kernel.trace.follows(&old(self).kernel.trace)
                &&& final(self).kernel.same_device(&old(self).kernel)
                &&& forall|log: Seq<PlatformEvent>| #[trigger]
                    crate::trace::continues(log, final(self).kernel.log()) ==> (visibility_run(
                        old(self).kernel.present,
                        old(self).kernel.state@,
                        region.handle,
                        offset,
                        length,
                        true,
                        log,
                        old(self).kernel.log().len() as int,
                    ) matches Some(
                        (inner, book, next),
                    ) && final(self).kernel.state@ == book && final(self).kernel.log().len() == next
                        && result == seen_as(inner, HermesFault::DmaAccess))
            },
    {
        let result = match self.kernel.validate_dma_region(region) {
            Err(_) => Err(HermesFault::DmaAccess),
            Ok(_) => match self.kernel.dma_publish(region.handle, offset, length) {
                Err(_) => Err(HermesFault::DmaAccess),
                Ok(_) => Ok(()),
            },
        };
        proof {
            let call = PortCall::Publish { region, offset, length, reply: result };
            Self::lemma_asked(self.asked@, call);
            self.asked@ = self.asked@.push(call);
        }
        result
    }

    fn dma_acquire(&mut self, region: DmaRegion<DmaLease>, offset: usize, length: usize) -> (result:
        Result<(), HermesFault>)
        ensures
            !region_genuine(old(self).kernel.state@, region) ==>
                result == Err::<(), _>(
                    HermesFault::DmaAccess
                ) && final(self).kernel == old(self).kernel,
            region_genuine(old(self).kernel.state@, region) ==> {
                &&& final(self).kernel.trace.follows(&old(self).kernel.trace)
                &&& final(self).kernel.same_device(&old(self).kernel)
                &&& forall|log: Seq<PlatformEvent>| #[trigger]
                    crate::trace::continues(log, final(self).kernel.log()) ==> (visibility_run(
                        old(self).kernel.present,
                        old(self).kernel.state@,
                        region.handle,
                        offset,
                        length,
                        false,
                        log,
                        old(self).kernel.log().len() as int,
                    ) matches Some(
                        (inner, book, next),
                    ) && final(self).kernel.state@ == book && final(self).kernel.log().len() == next
                        && result == seen_as(inner, HermesFault::DmaAccess))
            },
    {
        let result = match self.kernel.validate_dma_region(region) {
            Err(_) => Err(HermesFault::DmaAccess),
            Ok(_) => match self.kernel.dma_acquire(region.handle, offset, length) {
                Err(_) => Err(HermesFault::DmaAccess),
                Ok(_) => Ok(()),
            },
        };
        proof {
            let call = PortCall::Acquire { region, offset, length, reply: result };
            Self::lemma_asked(self.asked@, call);
            self.asked@ = self.asked@.push(call);
        }
        result
    }

    fn now_tick(&mut self) -> (tick: u64)
        ensures
            final(self).kernel.state == old(self).kernel.state,
            final(self).kernel.same_device(&old(self).kernel),
            final(self).kernel.log() == old(self).kernel.log().push(PlatformEvent::Now { tick }),
    {
        let result: u64 = self.kernel.trace.now();
        proof {
            let call = PortCall::Now { tick: result };
            Self::lemma_asked(self.asked@, call);
            self.asked@ = self.asked@.push(call);
        }
        result
    }

    fn relax(&mut self)
        ensures
            final(self).kernel.state == old(self).kernel.state,
            final(self).kernel.same_device(&old(self).kernel),
            final(self).kernel.log() == old(self).kernel.log().push(PlatformEvent::Relax),
    {
        self.kernel.trace.relax();
        proof {
            let call = PortCall::Relax;
            Self::lemma_asked(self.asked@, call);
            self.asked@ = self.asked@.push(call);
        }
    }
}

/// What is live among the first slots does not depend on the others.
proof fn lemma_live_dma_ignores(dma: Seq<DmaRecord>, other: Seq<DmaRecord>, count: nat)
    requires
        forall|i: int| 0 <= i < count ==> #[trigger] dma[i] == other[i],
    ensures
        live_dma(dma, count) == live_dma(other, count),
    decreases count,
{
    if count > 0 {
        assert(dma[count - 1] == other[count - 1]);
        lemma_live_dma_ignores(dma, other, (count - 1) as nat);
    }
}

/// What is live is what a report names, where it names what is live.
proof fn lemma_named_dma_live(
    pending: u16,
    before: Seq<DmaRecord>,
    dma: Seq<DmaRecord>,
    count: nat,
)
    requires
        forall|i: int|
            0 <= i < count ==> (#[trigger] names_dma(pending, i) <==> dma[i].active),
        forall|i: int|
            0 <= i < count && (#[trigger] dma[i]).active ==> dma[i] == before[i],
    ensures
        live_dma(dma, count) == named_dma(pending, before, count),
    decreases count,
{
    if count > 0 {
        assert(names_dma(pending, count - 1) <==> dma[count - 1].active);
        lemma_named_dma_live(pending, before, dma, (count - 1) as nat);
    }
}

proof fn lemma_dma_cleanup(
    present: HermesServicePresence,
    domain: u64,
    dma: Seq<DmaRecord>,
    count: nat,
    report: CleanupReport,
    log: Seq<PlatformEvent>,
    at: int,
)
    requires
        count <= dma.len() <= 8,
    ensures
        dma_cleanup_run(
            present,
            domain,
            dma,
            count,
            report,
            log,
            at,
        ) matches Some((after, told, end))
            ==> {
            &&& after.len() == dma.len()
            &&& forall|i: int|
                0 <= i < dma.len() ==> (#[trigger] after[i] == dma[i] || after[i] == (DmaRecord {
                    active: false,
                    ..dma[i]
                }))
            &&& forall|i: int| count <= i < dma.len() ==> #[trigger] after[i] == dma[i]
            &&& (report.pending_dma != 0 ==> told.pending_dma != 0)
            &&& forall|i: int|
                0 <= i < 16 ==> (#[trigger] names_dma(told.pending_dma, i) <==> names_dma(
                    report.pending_dma,
                    i,
                ) || (i < count && after[i].active))
            &&& if present.dma {
                releases(
                    domain,
                    live_dma(dma, count),
                    log,
                    at,
                ) && end == at + live_dma(dma, count).len()
            } else {
                end == at && after == dma
            }
            &&& (told.pending_dma == 0 ==> forall|i: int|
                0 <= i < count ==> !(#[trigger] after[i]).active)
            &&& told.pending_irq == report.pending_irq
            &&& told.pending_bars == report.pending_bars
        },
    decreases count,
{
    if count > 0 {
        let index = count - 1;
        let rest = (count - 1) as nat;
        let pending = report.pending_dma;
        let place = index as u16;
        assert(place < 8 ==> pending | (1u16 << place) != 0) by (bit_vector);
        assert forall|i: int| 0 <= i < 16 implies (#[trigger] names_dma(
            pending | (1u16 << place),
            i,
        ) <==> names_dma(pending, i) || i == index) by {
            let other = i as u16;
            assert((pending | (1u16 << place)) & (1u16 << other) != 0 <==> pending & (1u16 << other)
                != 0 || place == other) by (bit_vector)
                requires
                    place < 8,
                    other < 16,
            ;
        }
        lemma_live_dma_ignores(
            dma,
            dma.update(index, DmaRecord { active: false, ..dma[index] }),
            rest,
        );
        lemma_dma_cleanup(present, domain, dma, rest, report, log, at);
        lemma_dma_cleanup(
            present,
            domain,
            dma,
            rest,
            dma_stays(report, index, STATUS_UNSUPPORTED),
            log,
            at,
        );
        match release_at(domain, dma[index].backend, log, at) {
            None => {},
            Some(status) => {
                lemma_dma_cleanup(
                    present,
                    domain,
                    dma.update(index, DmaRecord { active: false, ..dma[index] }),
                    rest,
                    report,
                    log,
                    at + 1,
                );
                lemma_dma_cleanup(
                    present,
                    domain,
                    dma,
                    rest,
                    dma_stays(report, index, status),
                    log,
                    at + 1,
                );
            },
        }
    }
}

/// What is live among the first slots does not depend on the others.
proof fn lemma_live_bars_ignores(bars: Seq<MmioRecord>, other: Seq<MmioRecord>, count: nat)
    requires
        forall|i: int| 0 <= i < count ==> #[trigger] bars[i] == other[i],
    ensures
        live_bars(bars, count) == live_bars(other, count),
    decreases count,
{
    if count > 0 {
        assert(bars[count - 1] == other[count - 1]);
        lemma_live_bars_ignores(bars, other, (count - 1) as nat);
    }
}

/// What is live is what a report names, where it names what is live.
proof fn lemma_named_bars_live(
    pending: u8,
    before: Seq<MmioRecord>,
    bars: Seq<MmioRecord>,
    count: nat,
)
    requires
        forall|i: int|
            0 <= i < count ==> (#[trigger] names_bar(pending, i) <==> bars[i].active),
        forall|i: int|
            0 <= i < count && (#[trigger] bars[i]).active ==> bars[i] == before[i],
    ensures
        live_bars(bars, count) == named_bars(pending, before, count),
    decreases count,
{
    if count > 0 {
        assert(names_bar(pending, count - 1) <==> bars[count - 1].active);
        lemma_named_bars_live(pending, before, bars, (count - 1) as nat);
    }
}

proof fn lemma_bar_cleanup(
    present: HermesServicePresence,
    bars: Seq<MmioRecord>,
    count: nat,
    report: CleanupReport,
    log: Seq<PlatformEvent>,
    at: int,
)
    requires
        count <= bars.len() <= 6,
    ensures
        bar_cleanup_run(
            present,
            bars,
            count,
            report,
            log,
            at,
        ) matches Some((after, told, end)) ==> {
            &&& after.len() == bars.len()
            &&& forall|i: int|
                0 <= i < bars.len() ==> (#[trigger] after[i] == bars[i] || after[i] == (MmioRecord {
                    active: false,
                    pointer: 0,
                    ..bars[i]
                }))
            &&& forall|i: int| count <= i < bars.len() ==> #[trigger] after[i] == bars[i]
            &&& (report.pending_bars != 0 ==> told.pending_bars != 0)
            &&& forall|i: int|
                0 <= i < 8 ==> (#[trigger] names_bar(told.pending_bars, i) <==> names_bar(
                    report.pending_bars,
                    i,
                ) || (i < count && after[i].active))
            &&& if present.mmio {
                closes(live_bars(bars, count), log, at) && end == at + live_bars(bars, count).len()
            } else {
                end == at && after == bars
            }
            &&& (told.pending_bars == 0 ==> forall|i: int|
                0 <= i < count ==> !(#[trigger] after[i]).active)
            &&& told.pending_irq == report.pending_irq
            &&& told.pending_dma == report.pending_dma
        },
    decreases count,
{
    if count > 0 {
        let index = count - 1;
        let rest = (count - 1) as nat;
        let pending = report.pending_bars;
        let place = index as u8;
        assert(place < 6 ==> pending | (1u8 << place) != 0) by (bit_vector);
        assert forall|i: int| 0 <= i < 8 implies (#[trigger] names_bar(
            pending | (1u8 << place),
            i,
        ) <==> names_bar(pending, i) || i == index) by {
            let other = i as u8;
            assert((pending | (1u8 << place)) & (1u8 << other) != 0 <==> pending & (1u8 << other)
                != 0 || place == other) by (bit_vector)
                requires
                    place < 6,
                    other < 8,
            ;
        }
        lemma_live_bars_ignores(
            bars,
            bars.update(index, MmioRecord { active: false, pointer: 0, ..bars[index] }),
            rest,
        );
        lemma_bar_cleanup(present, bars, rest, report, log, at);
        lemma_bar_cleanup(
            present,
            bars,
            rest,
            bar_stays(report, index, STATUS_UNSUPPORTED),
            log,
            at,
        );
        match close_at(bars[index].backend, log, at) {
            None => {},
            Some(status) => {
                lemma_bar_cleanup(
                    present,
                    bars.update(index, MmioRecord { active: false, pointer: 0, ..bars[index] }),
                    rest,
                    report,
                    log,
                    at + 1,
                );
                lemma_bar_cleanup(
                    present,
                    bars,
                    rest,
                    bar_stays(report, index, status),
                    log,
                    at + 1,
                );
            },
        }
    }
}

/// A cleanup that succeeds leaves nothing leased, and the last thing that it did was to
/// release the domain.
pub proof fn law_a_finished_cleanup_leaves_nothing_leased(
    present: HermesServicePresence,
    book: LeaseBook,
    domain: DomainLease,
    log: Seq<PlatformEvent>,
    at: int,
)
    requires
        book.bars.len() == 6,
        book.dma.len() == 8,
        cleanup_run(present, book, domain, log, at) matches Some((Ok(_), _, _)),
    ensures
        cleanup_run(present, book, domain, log, at) matches Some((Ok(_), after, end))
            && after.nothing_leased() && release_domain_at(book.domain.backend, log, end - 1)
            == Some(STATUS_OK),
{
    let backend = book.domain.backend;
    match irq_cleanup_run(present, book.irq, CleanupReport::empty(), log, at) {
        None => {},
        Some((irq, interrupted, next)) => {
            lemma_dma_cleanup(present, backend, book.dma, 8, interrupted, log, next);
            match dma_cleanup_run(present, backend, book.dma, 8, interrupted, log, next) {
                None => {},
                Some((dma, released, then)) => {
                    lemma_bar_cleanup(present, book.bars, 6, released, log, then);
                },
            }
        },
    }
}

/// A cleanup that fails keeps its domain, and every lease that it does not end
/// stays as it was: its next try has all that it needs.
pub proof fn law_a_failed_cleanup_can_be_tried_again(
    present: HermesServicePresence,
    book: LeaseBook,
    domain: DomainLease,
    log: Seq<PlatformEvent>,
    at: int,
)
    requires
        book.bars.len() == 6,
        book.dma.len() == 8,
        cleanup_run(present, book, domain, log, at) matches Some((Err(_), _, _)),
    ensures
        cleanup_run(present, book, domain, log, at) matches Some((Err(report), after, _))
            && report.pending_domain && after.domain == book.domain && (forall|i: int|
            0 <= i < 8 ==> ((#[trigger] after.dma[i]).active ==> after.dma[i] == book.dma[i]))
            && (forall|i: int|
            0 <= i < 6 ==> ((#[trigger] after.bars[i]).active ==> after.bars[i] == book.bars[i]))
            && (after.irq.active ==> after.irq.backend == book.irq.backend && after.irq.generation
            == book.irq.generation),
{
    let backend = book.domain.backend;
    match irq_cleanup_run(present, book.irq, CleanupReport::empty(), log, at) {
        None => {},
        Some((irq, interrupted, next)) => {
            lemma_dma_cleanup(present, backend, book.dma, 8, interrupted, log, next);
            match dma_cleanup_run(present, backend, book.dma, 8, interrupted, log, next) {
                None => {},
                Some((dma, released, then)) => {
                    lemma_bar_cleanup(present, book.bars, 6, released, log, then);
                },
            }
        },
    }
}

proof fn lemma_cleanup_keeps_slots(
    present: HermesServicePresence,
    book: LeaseBook,
    domain: DomainLease,
    log: Seq<PlatformEvent>,
    at: int,
)
    requires
        book.bars.len() == 6,
        book.dma.len() == 8,
    ensures
        cleanup_run(present, book, domain, log, at) matches Some((_, after, _)) ==> after.bars.len()
            == 6 && after.dma.len() == 8,
{
    let backend = book.domain.backend;
    match irq_cleanup_run(present, book.irq, CleanupReport::empty(), log, at) {
        None => {},
        Some((irq, interrupted, next)) => {
            lemma_dma_cleanup(present, backend, book.dma, 8, interrupted, log, next);
            match dma_cleanup_run(present, backend, book.dma, 8, interrupted, log, next) {
                None => {},
                Some((dma, released, then)) => {
                    lemma_bar_cleanup(present, book.bars, 6, released, log, then);
                },
            }
        },
    }
}

proof fn lemma_an_empty_report_names_nothing()
    ensures
        forall|i: int| 0 <= i < 16 ==> !#[trigger] names_dma(0u16, i),
        forall|i: int| 0 <= i < 8 ==> !#[trigger] names_bar(0u8, i),
{
    assert forall|i: int| 0 <= i < 16 implies !#[trigger] names_dma(0u16, i) by {
        let place = i as u16;
        assert(0u16 & (1u16 << place) == 0) by (bit_vector);
    }
    assert forall|i: int| 0 <= i < 8 implies !#[trigger] names_bar(0u8, i) by {
        let place = i as u8;
        assert(0u8 & (1u8 << place) == 0) by (bit_vector);
    }
}

/// A cleanup asks for everything that is leased, in the reverse of the order in which it
/// was taken, and no refusal keeps it from the rest; the domain alone is asked for only
/// when nothing else stays.
pub proof fn law_a_cleanup_asks_for_every_lease(
    present: HermesServicePresence,
    book: LeaseBook,
    domain: DomainLease,
    log: Seq<PlatformEvent>,
    at: int,
)
    requires
        book.bars.len() == 6,
        book.dma.len() == 8,
        book.domain_of(domain) is Ok,
        cleanup_run(present, book, domain, log, at) is Some,
    ensures
        cleanup_run(present, book, domain, log, at) matches Some((result, _, end))
            && asks_for_every_lease(present, book, result, log, at, end),
{
    let backend = book.domain.backend;
    lemma_an_empty_report_names_nothing();
    match irq_cleanup_run(present, book.irq, CleanupReport::empty(), log, at) {
        None => {},
        Some((irq, interrupted, next)) => {
            lemma_dma_cleanup(present, backend, book.dma, 8, interrupted, log, next);
            match dma_cleanup_run(present, backend, book.dma, 8, interrupted, log, next) {
                None => {},
                Some((dma, released, then)) => {
                    lemma_bar_cleanup(present, book.bars, 6, released, log, then);
                },
            }
        },
    }
}

/// A cleanup that fails names in its report exactly what stays leased, slot by slot.
pub proof fn law_a_failed_cleanup_names_what_stays(
    present: HermesServicePresence,
    book: LeaseBook,
    domain: DomainLease,
    log: Seq<PlatformEvent>,
    at: int,
)
    requires
        book.bars.len() == 6,
        book.dma.len() == 8,
        book.domain_of(domain) is Ok,
        cleanup_run(present, book, domain, log, at) matches Some((Err(_), _, _)),
    ensures
        cleanup_run(present, book, domain, log, at) matches Some((Err(report), after, _))
            && names_what_stays(report, after),
{
    let backend = book.domain.backend;
    lemma_an_empty_report_names_nothing();
    match irq_cleanup_run(present, book.irq, CleanupReport::empty(), log, at) {
        None => {},
        Some((irq, interrupted, next)) => {
            lemma_dma_cleanup(present, backend, book.dma, 8, interrupted, log, next);
            match dma_cleanup_run(present, backend, book.dma, 8, interrupted, log, next) {
                None => {},
                Some((dma, released, then)) => {
                    lemma_bar_cleanup(present, book.bars, 6, released, log, then);
                },
            }
        },
    }
}

/// The cleanup after one that failed asks for exactly what the first one's report names,
/// under the same lease of the domain; where it succeeds, nothing is leased any more and
/// the domain was released.
pub proof fn law_the_next_cleanup_asks_for_what_stayed(
    present: HermesServicePresence,
    book: LeaseBook,
    domain: DomainLease,
    log: Seq<PlatformEvent>,
    at: int,
    again: int,
)
    requires
        book.bars.len() == 6,
        book.dma.len() == 8,
        book.domain_of(domain) is Ok,
        cleanup_run(present, book, domain, log, at) matches Some((Err(_), after, _)) && cleanup_run(
            present,
            after,
            domain,
            log,
            again,
        ) is Some,
    ensures
        cleanup_run(present, book, domain, log, at) matches Some((Err(report), after, _)) && {
            &&& after.domain_of(domain) == book.domain_of(domain)
            &&& after.irq.active == report.pending_irq
            &&& live_dma(after.dma, 8) == named_dma(report.pending_dma, book.dma, 8)
            &&& live_bars(after.bars, 6) == named_bars(report.pending_bars, book.bars, 6)
            &&& cleanup_run(present, after, domain, log, again) matches Some((result, later, end))
                && asks_for_every_lease(present, after, result, log, again, end) && (result is Ok
                ==> later.nothing_leased() && release_domain_at(
                book.domain.backend,
                log,
                end - 1,
            ) == Some(STATUS_OK))
        },
{
    law_a_failed_cleanup_can_be_tried_again(present, book, domain, log, at);
    law_a_failed_cleanup_names_what_stays(present, book, domain, log, at);
    match cleanup_run(present, book, domain, log, at) {
        Some((Err(report), after, _)) => {
            lemma_cleanup_keeps_slots(present, book, domain, log, at);
            lemma_named_dma_live(report.pending_dma, book.dma, after.dma, 8);
            lemma_named_bars_live(report.pending_bars, book.bars, after.bars, 6);
            law_a_cleanup_asks_for_every_lease(present, after, domain, log, again);
            match cleanup_run(present, after, domain, log, again) {
                Some((Ok(_), _, _)) => {
                    law_a_finished_cleanup_leaves_nothing_leased(
                        present,
                        after,
                        domain,
                        log,
                        again,
                    );
                },
                _ => {},
            }
        },
        _ => {},
    }
}

/// A revoked lease is stale, and stays stale when its slot is leased again.
pub proof fn law_a_revoked_lease_stays_stale(
    present: HermesServicePresence,
    fingerprint: GpuFingerprint,
    book: LeaseBook,
    lease: MmioLease,
    domain: DomainLease,
    minimum_length: u64,
    log: Seq<PlatformEvent>,
    at: int,
    again: int,
)
    requires
        book.bars.len() == 6,
        revoke_bar_run(present, book, lease, log, at) matches Some((Ok(_), _, _)),
    ensures
        revoke_bar_run(present, book, lease, log, at) matches Some((Ok(_), after, _))
            && after.mmio_of(lease) is Err && (map_run(
            fingerprint,
            present,
            after,
            domain,
            lease.slot,
            minimum_length,
            log,
            again,
        ) matches Some((_, later, _)) ==> later.mmio_of(lease) is Err),
{
}

/// A region that a transport shows is the region that was leased, or nothing is done
/// with it: what is genuine is determined by its lease.
pub proof fn law_genuine_regions_are_unique(
    book: LeaseBook,
    first: DmaRegion<DmaLease>,
    second: DmaRegion<DmaLease>,
)
    requires
        region_genuine(book, first),
        region_genuine(book, second),
        first.handle == second.handle,
    ensures
        first == second,
{
}

} // verus!
