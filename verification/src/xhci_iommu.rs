//! Bindings of an xHCI arena in the remapping domain of its requester.
//!
//! A translated controller gets one exact mapping for each region and never a
//! relocated one. The binding owns its mappings until they are revoked.

use crate::seal::Sealer;
use crate::status::STATUS_OK;
use crate::xhci_dma::{XhciDmaArena, XhciDmaPurpose, XhciDmaRegionPhase, XhciDmaRegionRecord};
use vstd::prelude::*;

verus! {

pub const BINDING_REGION_CAPACITY: usize = 6;

pub const BINDING_ROOT_DOMAIN: u64 = 0x5848_4349_5654_444d;

#[derive(Clone, Copy, Debug, PartialEq, Eq, Structural)]
pub enum XhciIommuBindingError {
    InvalidSecret,
    InvalidGeneration,
    MissingRegion(XhciDmaPurpose),
    RegionNotReady(XhciDmaPurpose),
    GenerationMismatch { expected: u32, observed: u32 },
    InvalidGeometry(XhciDmaPurpose),
    Mapping(i32),
}

/// What a device may do in a mapping.
#[derive(Clone, Copy, Debug, PartialEq, Eq, Structural)]
pub struct DmaAccess {
    pub read: bool,
    pub write: bool,
}

#[verifier::allow_in_spec]
pub fn read_write() -> DmaAccess
    returns
        (DmaAccess { read: true, write: true }),
{
    DmaAccess { read: true, write: true }
}

/// A domain's name for one mapping.
#[derive(Clone, Copy, Debug, PartialEq, Eq, Structural)]
pub struct DmaMappingHandle {
    pub device_address: u64,
    pub length: usize,
    pub generation: u32,
}

/// One exchange with a domain.
pub enum DomainEvent {
    Bind {
        device_address: u64,
        physical_address: u64,
        length: usize,
        access: DmaAccess,
        reply: Result<DmaMappingHandle, i32>,
    },
    Revoke { mapping: DmaMappingHandle, status: i32 },
}

/// The remapping domain of one requester. Each call adds one entry to its history.
pub trait IommuDomain {
    /// All that the domain was asked and answered.
    open spec fn history(&self) -> Seq<DomainEvent> {
        arbitrary()
    }

    fn map_dma_at(
        &mut self,
        device_address: u64,
        physical_address: u64,
        length: usize,
        access: DmaAccess,
    ) -> (reply: Result<DmaMappingHandle, i32>)
        ensures
            final(self).history() == old(self).history().push(
                DomainEvent::Bind { device_address, physical_address, length, access, reply },
            ),
    ;

    fn revoke_dma(&mut self, mapping: DmaMappingHandle) -> (status: i32)
        ensures
            final(self).history() == old(self).history().push(
                DomainEvent::Revoke { mapping, status },
            ),
    ;
}

/// A domain that a binding works on. Its transcript is the history of the domain.
pub struct DomainTrace<D> {
    pub domain: D,
}

impl<D: IommuDomain> DomainTrace<D> {
    pub open spec fn log(&self) -> Seq<DomainEvent> {
        self.domain.history()
    }

    pub fn new(domain: D) -> (trace: Self)
        ensures
            trace.domain == domain,
    {
        DomainTrace { domain }
    }
}

/// A domain that is lent.
impl<D: IommuDomain> IommuDomain for &mut D {
    open spec fn history(&self) -> Seq<DomainEvent> {
        (**self).history()
    }

    fn map_dma_at(
        &mut self,
        device_address: u64,
        physical_address: u64,
        length: usize,
        access: DmaAccess,
    ) -> (reply: Result<DmaMappingHandle, i32>) {
        (**self).map_dma_at(device_address, physical_address, length, access)
    }

    fn revoke_dma(&mut self, mapping: DmaMappingHandle) -> (status: i32) {
        (**self).revoke_dma(mapping)
    }
}

/// Whatever holds the regions of a controller.
pub trait XhciRingStorage {
    spec fn region_of(&self, purpose: XhciDmaPurpose) -> Option<XhciDmaRegionRecord>;

    fn region(&self, purpose: XhciDmaPurpose) -> (record: Option<XhciDmaRegionRecord>)
        ensures
            record == self.region_of(purpose),
    ;
}

impl XhciRingStorage for XhciDmaArena {
    open spec fn region_of(&self, purpose: XhciDmaPurpose) -> Option<XhciDmaRegionRecord> {
        crate::xhci_dma::region_for(self.records@, purpose, 0)
    }

    fn region(&self, purpose: XhciDmaPurpose) -> (record: Option<XhciDmaRegionRecord>) {
        XhciDmaArena::region(self, purpose)
    }
}

/// A region that may be mapped.
#[verifier::allow_in_spec]
pub fn ready_region(
    record: XhciDmaRegionRecord,
    purpose: XhciDmaPurpose,
    expected_generation: u32,
) -> Result<XhciDmaRegionRecord, XhciIommuBindingError>
    returns
        (if record.phase != XhciDmaRegionPhase::Ready {
            Err(XhciIommuBindingError::RegionNotReady(purpose))
        } else if record.generation != expected_generation {
            Err(
                XhciIommuBindingError::GenerationMismatch {
                    expected: expected_generation,
                    observed: record.generation,
                },
            )
        } else if record.page_count * 4096 > usize::MAX || record.device_address_start % 4096 != 0
            || record.physical_start % 4096 != 0 || record.page_count == 0 {
            Err(XhciIommuBindingError::InvalidGeometry(purpose))
        } else {
            Ok::<XhciDmaRegionRecord, XhciIommuBindingError>(record)
        }),
{
    if record.phase != XhciDmaRegionPhase::Ready {
        return Err(XhciIommuBindingError::RegionNotReady(purpose));
    }
    if record.generation != expected_generation {
        return Err(
            XhciIommuBindingError::GenerationMismatch {
                expected: expected_generation,
                observed: record.generation,
            },
        );
    }
    let length: usize = match record.page_count.checked_mul(4096) {
        None => {
            return Err(XhciIommuBindingError::InvalidGeometry(purpose));
        },
        Some(length) => length,
    };
    if record.device_address_start % 4096 != 0 || record.physical_start % 4096 != 0 || length
        == 0 {
        return Err(XhciIommuBindingError::InvalidGeometry(purpose));
    }
    Ok(record)
}

/// A region that must be there and may be mapped.
#[verifier::allow_in_spec]
pub fn required_ready_region(
    region: Option<XhciDmaRegionRecord>,
    purpose: XhciDmaPurpose,
    expected_generation: u32,
) -> Result<XhciDmaRegionRecord, XhciIommuBindingError>
    returns
        (match region {
            None => Err(XhciIommuBindingError::MissingRegion(purpose)),
            Some(record) => ready_region(record, purpose, expected_generation),
        }),
{
    match region {
        None => Err(XhciIommuBindingError::MissingRegion(purpose)),
        Some(record) => ready_region(record, purpose, expected_generation),
    }
}

/// The scratchpad regions: both ready, or neither there.
pub open spec fn scratchpad_pair(
    array: Option<XhciDmaRegionRecord>,
    buffers: Option<XhciDmaRegionRecord>,
    generation: u32,
) -> Result<Seq<Option<XhciDmaRegionRecord>>, XhciIommuBindingError> {
    match (array, buffers) {
        (None, None) => Ok(seq![None, None]),
        (Some(_), None) => Err(
            XhciIommuBindingError::MissingRegion(XhciDmaPurpose::ScratchpadBuffers),
        ),
        (None, Some(_)) => Err(
            XhciIommuBindingError::MissingRegion(XhciDmaPurpose::ScratchpadPointerArray),
        ),
        (Some(first), Some(second)) => match ready_region(
            first,
            XhciDmaPurpose::ScratchpadPointerArray,
            generation,
        ) {
            Err(error) => Err(error),
            Ok(first) => match ready_region(
                second,
                XhciDmaPurpose::ScratchpadBuffers,
                generation,
            ) {
                Err(error) => Err(error),
                Ok(second) => Ok(seq![Some(first), Some(second)]),
            },
        },
    }
}

/// The regions of a storage, each in its slot.
pub open spec fn regions_of<S: XhciRingStorage>(storage: &S, generation: u32) -> Result<
    Seq<Option<XhciDmaRegionRecord>>,
    XhciIommuBindingError,
> {
    match required_ready_region(
        storage.region_of(XhciDmaPurpose::Dcbaa),
        XhciDmaPurpose::Dcbaa,
        generation,
    ) {
        Err(error) => Err(error),
        Ok(dcbaa) => match required_ready_region(
            storage.region_of(XhciDmaPurpose::CommandRing),
            XhciDmaPurpose::CommandRing,
            generation,
        ) {
            Err(error) => Err(error),
            Ok(commands) => match required_ready_region(
                storage.region_of(XhciDmaPurpose::EventRing),
                XhciDmaPurpose::EventRing,
                generation,
            ) {
                Err(error) => Err(error),
                Ok(events) => match required_ready_region(
                    storage.region_of(XhciDmaPurpose::EventRingSegmentTable),
                    XhciDmaPurpose::EventRingSegmentTable,
                    generation,
                ) {
                    Err(error) => Err(error),
                    Ok(segments) => match scratchpad_pair(
                        storage.region_of(XhciDmaPurpose::ScratchpadPointerArray),
                        storage.region_of(XhciDmaPurpose::ScratchpadBuffers),
                        generation,
                    ) {
                        Err(error) => Err(error),
                        Ok(pair) => Ok(
                            seq![Some(dcbaa), Some(commands), Some(events), Some(segments)] + pair,
                        ),
                    },
                },
            },
        },
    }
}

/// Records whose pages fit in memory.
pub open spec fn mappable(records: Seq<Option<XhciDmaRegionRecord>>) -> bool {
    &&& records.len() == BINDING_REGION_CAPACITY
    &&& forall|i: int|
        0 <= i < records.len() ==> (#[trigger] records[i] matches Some(record) ==> record.page_count
            * 4096 <= usize::MAX)
}

fn collect_regions<S: XhciRingStorage>(storage: &S, generation: u32) -> (result: Result<
    Vec<Option<XhciDmaRegionRecord>>,
    XhciIommuBindingError,
>)
    ensures
        regions_of(storage, generation) == (match result {
            Ok(records) => Ok(records@),
            Err(error) => Err(error),
        }),
        result matches Ok(records) ==> mappable(records@),
{
    let dcbaa = match required_ready_region(
        storage.region(XhciDmaPurpose::Dcbaa),
        XhciDmaPurpose::Dcbaa,
        generation,
    ) {
        Err(error) => {
            return Err(error);
        },
        Ok(record) => record,
    };
    let commands = match required_ready_region(
        storage.region(XhciDmaPurpose::CommandRing),
        XhciDmaPurpose::CommandRing,
        generation,
    ) {
        Err(error) => {
            return Err(error);
        },
        Ok(record) => record,
    };
    let events = match required_ready_region(
        storage.region(XhciDmaPurpose::EventRing),
        XhciDmaPurpose::EventRing,
        generation,
    ) {
        Err(error) => {
            return Err(error);
        },
        Ok(record) => record,
    };
    let segments = match required_ready_region(
        storage.region(XhciDmaPurpose::EventRingSegmentTable),
        XhciDmaPurpose::EventRingSegmentTable,
        generation,
    ) {
        Err(error) => {
            return Err(error);
        },
        Ok(record) => record,
    };
    let mut records: Vec<Option<XhciDmaRegionRecord>> = Vec::new();
    records.push(Some(dcbaa));
    records.push(Some(commands));
    records.push(Some(events));
    records.push(Some(segments));
    let array = storage.region(XhciDmaPurpose::ScratchpadPointerArray);
    let buffers = storage.region(XhciDmaPurpose::ScratchpadBuffers);
    match (array, buffers) {
        (None, None) => {
            records.push(None);
            records.push(None);
        },
        (Some(_), None) => {
            return Err(XhciIommuBindingError::MissingRegion(XhciDmaPurpose::ScratchpadBuffers));
        },
        (None, Some(_)) => {
            return Err(
                XhciIommuBindingError::MissingRegion(XhciDmaPurpose::ScratchpadPointerArray),
            );
        },
        (Some(first), Some(second)) => {
            match ready_region(first, XhciDmaPurpose::ScratchpadPointerArray, generation) {
                Err(error) => {
                    return Err(error);
                },
                Ok(record) => {
                    records.push(Some(record));
                },
            }
            match ready_region(second, XhciDmaPurpose::ScratchpadBuffers, generation) {
                Err(error) => {
                    return Err(error);
                },
                Ok(record) => {
                    records.push(Some(record));
                },
            }
        },
    }
    proof {
        let expected = regions_of(storage, generation);
        assert(expected is Ok);
        assert(records@ =~= expected.unwrap());
    }
    Ok(records)
}

/// The mapping of the records from one on, by the transcript: the mappings after
/// it, and the status that stopped it.
pub open spec fn map_run(
    records: Seq<Option<XhciDmaRegionRecord>>,
    index: int,
    mappings: Seq<Option<DmaMappingHandle>>,
    log: Seq<DomainEvent>,
    at: int,
) -> Option<(Seq<Option<DmaMappingHandle>>, Option<i32>, int)>
    decreases records.len() - index,
{
    if index < 0 || index >= records.len() {
        Some((mappings, None, at))
    } else {
        match records[index] {
            None => map_run(records, index + 1, mappings, log, at),
            Some(record) => if !(0 <= at < log.len()) {
                None
            } else {
                match log[at] {
                    DomainEvent::Bind {
                        device_address,
                        physical_address,
                        length,
                        access,
                        reply,
                    } => if device_address == record.device_address_start && physical_address
                        == record.physical_start && length == record.page_count * 4096 && access
                        == read_write() {
                        match reply {
                            Err(status) => Some((mappings, Some(status), at + 1)),
                            Ok(mapping) => map_run(
                                records,
                                index + 1,
                                mappings.update(index, Some(mapping)),
                                log,
                                at + 1,
                            ),
                        }
                    } else {
                        None
                    },
                    _ => None,
                }
            },
        }
    }
}

/// The revoking of the mappings from one on, by the transcript.
pub open spec fn revoke_run(
    mappings: Seq<Option<DmaMappingHandle>>,
    index: int,
    log: Seq<DomainEvent>,
    at: int,
) -> Option<(Seq<Option<DmaMappingHandle>>, Option<i32>, int)>
    decreases mappings.len() - index,
{
    if index < 0 || index >= mappings.len() {
        Some((mappings, None, at))
    } else {
        match mappings[index] {
            None => revoke_run(mappings, index + 1, log, at),
            Some(held) => if !(0 <= at < log.len()) {
                None
            } else {
                match log[at] {
                    DomainEvent::Revoke { mapping, status } => if mapping != held {
                        None
                    } else if status != STATUS_OK {
                        Some((mappings, Some(status), at + 1))
                    } else {
                        revoke_run(mappings.update(index, None), index + 1, log, at + 1)
                    },
                    _ => None,
                }
            },
        }
    }
}

/// The mappings of every region that a controller can reach.
#[derive(Debug, PartialEq, Eq)]
pub struct XhciIommuBinding {
    pub generation: u32,
    pub mappings: Vec<Option<DmaMappingHandle>>,
    pub root: u64,
}

/// Mappings that could not be revoked.
#[derive(Debug, PartialEq, Eq)]
pub struct XhciIommuReleaseDebt {
    pub binding: XhciIommuBinding,
    pub status: i32,
}

/// A binding that failed, with the mappings that could not be revoked again.
#[derive(Debug, PartialEq, Eq)]
pub struct XhciIommuBindFailure {
    pub cause: XhciIommuBindingError,
    pub debt: Option<XhciIommuReleaseDebt>,
}

/// Whether a revocation ended as it must.
pub open spec fn revokes(
    binding: XhciIommuBinding,
    before: Seq<DomainEvent>,
    after: Seq<DomainEvent>,
    result: Result<(), XhciIommuReleaseDebt>,
) -> bool {
    forall|log: Seq<DomainEvent>| #[trigger]
        crate::trace::continues(log, after) ==> match revoke_run(
            binding.mappings@,
            0,
            log,
            before.len() as int,
        ) {
            Some((mappings, stopped, end)) => end == after.len() && match result {
                Ok(_) => stopped is None,
                Err(debt) => stopped == Some(debt.status) && debt.binding.mappings@ == mappings
                    && debt.binding.generation == binding.generation && debt.binding.root
                    == binding.root,
            },
            None => false,
        }
}

/// How many mappings are held.
pub open spec fn held_count(mappings: Seq<Option<DmaMappingHandle>>) -> int
    decreases mappings.len(),
{
    if mappings.len() == 0 {
        0
    } else {
        held_count(mappings.drop_last()) + if mappings.last() is Some {
            1int
        } else {
            0int
        }
    }
}

impl XhciIommuReleaseDebt {
    #[verifier::allow_in_spec]
    pub fn status(&self) -> i32
        returns
            self.status,
    {
        self.status
    }

    #[verifier::allow_in_spec]
    pub fn generation(&self) -> u32
        returns
            self.binding.generation,
    {
        self.binding.generation
    }

    pub fn retry<D: IommuDomain>(self, domain: &mut DomainTrace<D>) -> (result: Result<(), Self>)
        ensures
            crate::trace::continues(final(domain).log(), old(domain).log()),
            revokes(self.binding, old(domain).log(), final(domain).log(), result),
    {
        self.binding.revoke(domain)
    }
}

impl XhciIommuBindFailure {
    #[verifier::allow_in_spec]
    pub fn cause(&self) -> XhciIommuBindingError
        returns
            self.cause,
    {
        self.cause
    }

    pub fn has_release_debt(&self) -> (owed: bool)
        ensures
            owed == (self.debt is Some),
    {
        self.debt.is_some()
    }

    pub fn into_release_debt(self) -> (debt: Option<XhciIommuReleaseDebt>)
        ensures
            debt == self.debt,
    {
        self.debt
    }
}

impl XhciIommuBinding {
    #[verifier::allow_in_spec]
    pub fn generation(&self) -> u32
        returns
            self.generation,
    {
        self.generation
    }

    #[verifier::allow_in_spec]
    pub fn root(&self) -> u64
        returns
            self.root,
    {
        self.root
    }

    pub fn mapping_count(&self) -> (count: usize)
        ensures
            count == held_count(self.mappings@),
    {
        let mut count: usize = 0;
        let mut index: usize = 0;
        assert(self.mappings@.take(0) =~= Seq::<Option<DmaMappingHandle>>::empty());
        while index < self.mappings.len()
            invariant
                index <= self.mappings@.len(),
                count <= index,
                count == held_count(self.mappings@.take(index as int)),
            decreases self.mappings@.len() - index,
        {
            proof {
                assert(self.mappings@.take(index + 1).drop_last() =~= self.mappings@.take(
                    index as int,
                ));
            }
            if self.mappings[index].is_some() {
                count = count + 1;
            }
            index = index + 1;
        }
        assert(self.mappings@.take(index as int) =~= self.mappings@);
        count
    }

    /// Revokes every mapping, which must precede the release of the domain.
    pub fn revoke<D: IommuDomain>(self, domain: &mut DomainTrace<D>) -> (result: Result<
        (),
        XhciIommuReleaseDebt,
    >)
        ensures
            crate::trace::continues(final(domain).log(), old(domain).log()),
            revokes(self, old(domain).log(), final(domain).log(), result),
    {
        let ghost start = self;
        let mut binding = self;
        let mut index: usize = 0;
        while index < binding.mappings.len()
            invariant
                index <= binding.mappings@.len(),
                start == self,
                binding.generation == start.generation,
                binding.root == start.root,
                crate::trace::continues(domain.log(), old(domain).log()),
                forall|log: Seq<DomainEvent>| #[trigger]
                    crate::trace::continues(log, domain.log()) ==> revoke_run(
                        start.mappings@,
                        0,
                        log,
                        old(domain).log().len() as int,
                    ) == revoke_run(
                        binding.mappings@,
                        index as int,
                        log,
                        domain.log().len() as int,
                    ),
            decreases binding.mappings@.len() - index,
        {
            match binding.mappings[index] {
                None => {},
                Some(mapping) => {
                    let ghost head = domain.log();
                    let status: i32 = domain.domain.revoke_dma(mapping);
                    assert forall|log: Seq<DomainEvent>| #[trigger]
                        crate::trace::continues(log, domain.log()) implies crate::trace::continues(
                        log,
                        head,
                    ) && log[head.len() as int] == domain.log()[head.len() as int] by {}
                    if status != STATUS_OK {
                        return Err(XhciIommuReleaseDebt { binding, status });
                    }
                    binding.mappings.set(index, None);
                },
            }
            index = index + 1;
        }
        Ok(())
    }
}

/// The words that a binding root seals.
pub open spec fn binding_words(
    generation: u32,
    records: Seq<Option<XhciDmaRegionRecord>>,
) -> Seq<u64>
    decreases records.len(),
{
    if records.len() == 0 {
        seq![generation as u64]
    } else {
        let head = binding_words(generation, records.drop_last());
        match records.last() {
            Some(record) => head.push(record.device_address_start).push(
                record.physical_start,
            ).push(record.page_count as u64),
            None => head,
        }
    }
}

pub open spec fn binding_root_of(
    secret: u64,
    generation: u32,
    records: Seq<Option<XhciDmaRegionRecord>>,
) -> u64 {
    let root = crate::seal::seal_of(
        secret ^ BINDING_ROOT_DOMAIN,
        binding_words(generation, records),
    );
    if root == 0 {
        BINDING_ROOT_DOMAIN
    } else {
        root
    }
}

fn binding_root(
    secret: u64,
    generation: u32,
    records: &Vec<Option<XhciDmaRegionRecord>>,
) -> (root: u64)
    ensures
        root == binding_root_of(secret, generation, records@),
{
    let mut sealer = Sealer::new(secret ^ BINDING_ROOT_DOMAIN).word(generation as u64);
    let mut index: usize = 0;
    assert(sealer.words() =~= binding_words(generation, records@.take(0)));
    while index < records.len()
        invariant
            index <= records@.len(),
            sealer.seed() == secret ^ BINDING_ROOT_DOMAIN,
            sealer.words() == binding_words(generation, records@.take(index as int)),
        decreases records@.len() - index,
    {
        proof {
            assert(records@.take(index + 1).drop_last() =~= records@.take(index as int));
        }
        match records[index] {
            Some(record) => {
                sealer = sealer.word(record.device_address_start).word(
                    record.physical_start,
                ).word(record.page_count as u64);
            },
            None => {},
        }
        index = index + 1;
    }
    assert(records@.take(index as int) =~= records@);
    let root: u64 = sealer.root();
    if root == 0 {
        BINDING_ROOT_DOMAIN
    } else {
        root
    }
}

fn map_records<D: IommuDomain>(
    records: &Vec<Option<XhciDmaRegionRecord>>,
    domain: &mut DomainTrace<D>,
) -> (result: (Vec<Option<DmaMappingHandle>>, Option<i32>))
    requires
        mappable(records@),
    ensures
        crate::trace::continues(final(domain).log(), old(domain).log()),
        forall|log: Seq<DomainEvent>| #[trigger]
            crate::trace::continues(log, final(domain).log()) ==> map_run(
                records@,
                0,
                no_mappings(),
                log,
                old(domain).log().len() as int,
            ) == Some((result.0@, result.1, final(domain).log().len() as int)),
{
    let mut mappings: Vec<Option<DmaMappingHandle>> = Vec::new();
    mappings.push(None);
    mappings.push(None);
    mappings.push(None);
    mappings.push(None);
    mappings.push(None);
    mappings.push(None);
    assert(mappings@ =~= no_mappings());
    let mut index: usize = 0;
    while index < records.len()
        invariant
            index <= records@.len(),
            mappable(records@),
            mappings@.len() == records@.len(),
            crate::trace::continues(domain.log(), old(domain).log()),
            forall|log: Seq<DomainEvent>| #[trigger]
                crate::trace::continues(log, domain.log()) ==> map_run(
                    records@,
                    0,
                    no_mappings(),
                    log,
                    old(domain).log().len() as int,
                ) == map_run(
                    records@,
                    index as int,
                    mappings@,
                    log,
                    domain.log().len() as int,
                ),
        decreases records@.len() - index,
    {
        match records[index] {
            None => {},
            Some(record) => {
                assert(records@[index as int] matches Some(found) && found == record);
                let ghost head = domain.log();
                let reply = domain.domain.map_dma_at(
                    record.device_address_start,
                    record.physical_start,
                    record.page_count * 4096,
                    read_write(),
                );
                assert forall|log: Seq<DomainEvent>| #[trigger]
                    crate::trace::continues(log, domain.log()) implies crate::trace::continues(
                    log,
                    head,
                ) && log[head.len() as int] == domain.log()[head.len() as int] by {}
                match reply {
                    Err(status) => {
                        return (mappings, Some(status));
                    },
                    Ok(mapping) => {
                        mappings.set(index, Some(mapping));
                    },
                }
            },
        }
        index = index + 1;
    }
    (mappings, None)
}

pub open spec fn no_mappings() -> Seq<Option<DmaMappingHandle>> {
    seq![None, None, None, None, None, None]
}

/// What a binding is refused for before the domain is asked.
pub open spec fn bind_fault<S: XhciRingStorage>(
    storage: &S,
    generation: u32,
    secret: u64,
) -> Option<
    XhciIommuBindingError,
> {
    if generation == 0 {
        Some(XhciIommuBindingError::InvalidGeneration)
    } else if secret == 0 {
        Some(XhciIommuBindingError::InvalidSecret)
    } else {
        match regions_of(storage, generation) {
            Err(error) => Some(error),
            Ok(_) => None,
        }
    }
}

/// How a binding of sound regions ended.
pub struct BindEnd {
    pub mappings: Seq<Option<DmaMappingHandle>>,
    pub failed: Option<i32>,
    pub debt: Option<i32>,
}

/// A binding of sound regions, by the transcript.
pub open spec fn bind_run(
    records: Seq<Option<XhciDmaRegionRecord>>,
    log: Seq<DomainEvent>,
    at: int,
) -> Option<(BindEnd, int)> {
    match map_run(records, 0, no_mappings(), log, at) {
        None => None,
        Some((mappings, None, after)) => Some(
            (BindEnd { mappings, failed: None, debt: None }, after),
        ),
        Some((mappings, Some(status), after)) => match revoke_run(mappings, 0, log, after) {
            None => None,
            Some((left, debt, end)) => Some(
                (BindEnd { mappings: left, failed: Some(status), debt }, end),
            ),
        },
    }
}

/// Maps every region of a storage, or none.
pub fn bind_core_regions<D: IommuDomain, S: XhciRingStorage>(
    domain: &mut DomainTrace<D>,
    storage: &S,
    expected_generation: u32,
    secret: u64,
) -> (result: Result<XhciIommuBinding, XhciIommuBindFailure>)
    ensures
        crate::trace::continues(final(domain).log(), old(domain).log()),
        match bind_fault(storage, expected_generation, secret) {
            Some(cause) => {
                &&& result == Err::<XhciIommuBinding, _>(XhciIommuBindFailure { cause, debt: None })
                &&& final(domain).log() == old(domain).log()
            },
            None => forall|log: Seq<DomainEvent>| #[trigger]
                crate::trace::continues(log, final(domain).log()) ==> match bind_run(
                    regions_of(storage, expected_generation).unwrap(),
                    log,
                    old(domain).log().len() as int,
                ) {
                    Some((finish, end)) => end == final(domain).log().len() && match result {
                        Ok(binding) => finish.failed is None && binding.generation
                            == expected_generation && binding.mappings@ == finish.mappings
                            && binding.root == binding_root_of(
                            secret,
                            expected_generation,
                            regions_of(storage, expected_generation).unwrap(),
                        ),
                        Err(failure) => finish.failed matches Some(status) && failure.cause
                            == XhciIommuBindingError::Mapping(status) && match failure.debt {
                            None => finish.debt is None,
                            Some(debt) => finish.debt == Some(debt.status)
                                && debt.binding.mappings@ == finish.mappings
                                && debt.binding.generation == expected_generation
                                && debt.binding.root == BINDING_ROOT_DOMAIN,
                        },
                    },
                    None => false,
                },
        },
{
    if expected_generation == 0 {
        return Err(
            XhciIommuBindFailure { cause: XhciIommuBindingError::InvalidGeneration, debt: None },
        );
    }
    if secret == 0 {
        return Err(
            XhciIommuBindFailure { cause: XhciIommuBindingError::InvalidSecret, debt: None },
        );
    }
    let records = match collect_regions(storage, expected_generation) {
        Err(cause) => {
            return Err(XhciIommuBindFailure { cause, debt: None });
        },
        Ok(records) => records,
    };
    let (mappings, failed) = map_records(&records, domain);
    match failed {
        Some(status) => {
            let ghost mapped = domain.log();
            let partial = XhciIommuBinding {
                generation: expected_generation,
                mappings,
                root: BINDING_ROOT_DOMAIN,
            };
            let debt = match partial.revoke(domain) {
                Ok(()) => None,
                Err(debt) => Some(debt),
            };
            assert forall|log: Seq<DomainEvent>| #[trigger]
                crate::trace::continues(log, domain.log()) implies crate::trace::continues(
                log,
                mapped,
            ) by {}
            Err(XhciIommuBindFailure { cause: XhciIommuBindingError::Mapping(status), debt })
        },
        None => {
            let root: u64 = binding_root(secret, expected_generation, &records);
            Ok(XhciIommuBinding { generation: expected_generation, mappings, root })
        },
    }
}

/// A revocation that nothing stopped leaves no mapping; one that was stopped
/// keeps every mapping from the stopping one on.
pub proof fn law_a_revocation_loses_no_mapping(
    mappings: Seq<Option<DmaMappingHandle>>,
    index: int,
    log: Seq<DomainEvent>,
    at: int,
    after: Seq<Option<DmaMappingHandle>>,
    stopped: Option<i32>,
    end: int,
)
    requires
        0 <= index <= mappings.len(),
        forall|i: int| 0 <= i < index ==> #[trigger] mappings[i] is None,
        revoke_run(mappings, index, log, at) == Some((after, stopped, end)),
    ensures
        after.len() == mappings.len(),
        stopped is None ==> forall|i: int| 0 <= i < after.len() ==> #[trigger] after[i] is None,
        stopped is Some ==> forall|i: int|
            0 <= i < after.len() ==> #[trigger] after[i] is None || after[i] == mappings[i],
        stopped matches Some(status) ==> status != STATUS_OK && exists|i: int|
            index <= i < after.len() && #[trigger] after[i] is Some,
    decreases mappings.len() - index,
{
    if index < mappings.len() {
        match mappings[index] {
            None => {
                law_a_revocation_loses_no_mapping(
                    mappings,
                    index + 1,
                    log,
                    at,
                    after,
                    stopped,
                    end,
                );
            },
            Some(held) => match log[at] {
                DomainEvent::Revoke { mapping, status } => {
                    if status == STATUS_OK {
                        law_a_revocation_loses_no_mapping(
                            mappings.update(index, None),
                            index + 1,
                            log,
                            at + 1,
                            after,
                            stopped,
                            end,
                        );
                    } else {
                        assert(after[index] is Some);
                    }
                },
                _ => {},
            },
        }
    }
}

} // verus!
