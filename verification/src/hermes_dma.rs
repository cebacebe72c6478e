//! Domain-bound DMA memory for Hermes, made of scattered frames.
//!
//! Allocation and translation are one transaction: frames come one by one, device
//! addresses come from one contiguous lease, and an allocation is handed out only
//! after every page is mapped.

use crate::hermes_gsp::{is_power_of_two, DmaPurpose};
use crate::hermes_platform::{DmaAllocation, HermesDomainDmaService, PlatformEvent};
use crate::status::{
    STATUS_BUSY, STATUS_INVALID_ARGUMENT, STATUS_IO_ERROR, STATUS_NOT_FOUND, STATUS_OK,
};
use crate::xhci_iommu::{read_write, DmaAccess};
use vstd::prelude::*;

verus! {

broadcast use crate::trace::lemma_continues_through;

pub const PAGE_SIZE: usize = 4096;

pub const MAXIMUM_HERMES_DMA_LEASES: usize = 8;

/// How many pages one service holds in all.
pub const MAXIMUM_HERMES_DMA_PAGES: usize = 512;

#[derive(Clone, Copy, Debug, PartialEq, Eq, Structural)]
pub enum AllocationPhase {
    Empty,
    Mapping,
    Mapped,
    ReclaimingMappings,
    HardwareUnmapped,
    IovaReleased,
}

impl AllocationPhase {
    /// Whether a rollback has not come to its end.
    #[verifier::allow_in_spec]
    pub fn quarantined(self) -> bool
        returns
            (self == AllocationPhase::Mapping || self == AllocationPhase::ReclaimingMappings),
    {
        self == AllocationPhase::Mapping || self == AllocationPhase::ReclaimingMappings
    }
}

#[derive(Clone, Copy, Debug, PartialEq, Eq, Structural)]
pub enum PagePhase {
    Empty,
    FrameOwned,
    Mapped,
}

#[derive(Clone, Copy, Debug, PartialEq, Eq, Structural)]
pub struct PageRecord {
    pub owner_slot: u16,
    pub owner_generation: u32,
    pub page_index: u16,
    pub frame: u64,
    pub phase: PagePhase,
}

impl PageRecord {
    #[verifier::allow_in_spec]
    pub fn empty() -> PageRecord
        returns
            (PageRecord {
                owner_slot: 0,
                owner_generation: 0,
                page_index: 0,
                frame: 0,
                phase: PagePhase::Empty,
            }),
    {
        PageRecord {
            owner_slot: 0,
            owner_generation: 0,
            page_index: 0,
            frame: 0,
            phase: PagePhase::Empty,
        }
    }

    /// Whether a page is the one of an allocation at an index.
    pub open spec fn belongs(self, slot: int, generation: u32, page_index: int) -> bool {
        self.phase != PagePhase::Empty && self.owner_slot == slot + 1 && self.owner_generation
            == generation && self.page_index == page_index
    }
}

#[derive(Clone, Copy, Debug, PartialEq, Eq, Structural)]
pub struct AllocationRecord {
    pub generation: u32,
    pub phase: AllocationPhase,
    pub domain: u64,
    pub resident_pages: usize,
    pub requested_length: usize,
    pub iova: u64,
    pub device_address: u64,
}

impl AllocationRecord {
    /// A record of nothing that remembers its generation.
    #[verifier::allow_in_spec]
    pub fn empty(generation: u32) -> AllocationRecord
        returns
            (AllocationRecord {
                generation,
                phase: AllocationPhase::Empty,
                domain: 0,
                resident_pages: 0,
                requested_length: 0,
                iova: 0,
                device_address: 0,
            }),
    {
        AllocationRecord {
            generation,
            phase: AllocationPhase::Empty,
            domain: 0,
            resident_pages: 0,
            requested_length: 0,
            iova: 0,
            device_address: 0,
        }
    }
}

/// What a service holds.
#[verifier::ext_equal]
pub struct DmaBook {
    pub records: Seq<AllocationRecord>,
    pub pages: Seq<PageRecord>,
    pub poisoned: bool,
}

impl DmaBook {
    pub open spec fn poison(self) -> DmaBook {
        DmaBook { poisoned: true, ..self }
    }

    pub open spec fn with_record(self, slot: int, record: AllocationRecord) -> DmaBook {
        DmaBook { records: self.records.update(slot, record), ..self }
    }

    pub open spec fn with_page(self, place: int, page: PageRecord) -> DmaBook {
        DmaBook { pages: self.pages.update(place, page), ..self }
    }

    pub open spec fn in_phase(self, slot: int, phase: AllocationPhase) -> DmaBook {
        self.with_record(slot, AllocationRecord { phase, ..self.records[slot] })
    }
}

/// Frames, device addresses, a remapping unit and the memory behind them.
pub trait HermesDmaPlatform {
    /// All that the platform was asked and answered.
    open spec fn history(&self) -> Seq<FrameEvent> {
        arbitrary()
    }

    fn allocate_frame(&mut self) -> (reply: Option<u64>)
        ensures
            final(self).history() == old(self).history().push(FrameEvent::Frame { reply }),
    ;

    /// Gives a frame back, and says whether it was taken.
    fn release_frame(&mut self, frame: u64) -> (taken: bool)
        ensures
            final(self).history() == old(self).history().push(
                FrameEvent::ReleaseFrame { frame, taken },
            ),
    ;

    fn reserve_iova(&mut self, pages: u64, alignment_pages: u64) -> (reply: Option<u64>)
        ensures
            final(self).history() == old(self).history().push(
                FrameEvent::Reserve { pages, alignment_pages, reply },
            ),
    ;

    /// The start and length of a lease of device addresses.
    fn iova_range(&mut self, lease: u64) -> (reply: Option<(u64, u64)>)
        ensures
            final(self).history() == old(self).history().push(FrameEvent::Range { lease, reply }),
    ;

    /// Gives a lease of device addresses back, and says whether it was taken.
    fn release_iova(&mut self, lease: u64) -> (taken: bool)
        ensures
            final(self).history() == old(self).history().push(
                FrameEvent::ReleaseIova { lease, taken },
            ),
    ;

    fn map_page(
        &mut self,
        domain: u64,
        device_address: u64,
        frame: u64,
        length: usize,
        access: DmaAccess,
    ) -> (status: i32)
        ensures
            final(self).history() == old(self).history().push(
                FrameEvent::Bind { domain, device_address, frame, length, access, status },
            ),
    ;

    fn unmap_page(&mut self, domain: u64, device_address: u64, length: usize) -> (status: i32)
        ensures
            final(self).history() == old(self).history().push(
                FrameEvent::Unbind { domain, device_address, length, status },
            ),
    ;

    fn zero_page(&mut self, address: usize)
        ensures
            final(self).history() == old(self).history().push(FrameEvent::Zero { address }),
    ;

    fn store(&mut self, address: usize, value: u8)
        ensures
            final(self).history() == old(self).history().push(
                FrameEvent::Store { address, value },
            ),
    ;

    fn load(&mut self, address: usize) -> (value: u8)
        ensures
            final(self).history() == old(self).history().push(FrameEvent::Load { address, value }),
    ;

    fn fence(&mut self)
        ensures
            final(self).history() == old(self).history().push(FrameEvent::Fence),
    ;
}

/// A platform that is lent.
impl<P: HermesDmaPlatform> HermesDmaPlatform for &mut P {
    open spec fn history(&self) -> Seq<FrameEvent> {
        (**self).history()
    }

    fn allocate_frame(&mut self) -> (reply: Option<u64>) {
        (**self).allocate_frame()
    }

    fn release_frame(&mut self, frame: u64) -> (taken: bool) {
        (**self).release_frame(frame)
    }

    fn reserve_iova(&mut self, pages: u64, alignment_pages: u64) -> (reply: Option<u64>) {
        (**self).reserve_iova(pages, alignment_pages)
    }

    fn iova_range(&mut self, lease: u64) -> (reply: Option<(u64, u64)>) {
        (**self).iova_range(lease)
    }

    fn release_iova(&mut self, lease: u64) -> (taken: bool) {
        (**self).release_iova(lease)
    }

    fn map_page(
        &mut self,
        domain: u64,
        device_address: u64,
        frame: u64,
        length: usize,
        access: DmaAccess,
    ) -> (status: i32) {
        (**self).map_page(domain, device_address, frame, length, access)
    }

    fn unmap_page(&mut self, domain: u64, device_address: u64, length: usize) -> (status: i32) {
        (**self).unmap_page(domain, device_address, length)
    }

    fn zero_page(&mut self, address: usize) {
        (**self).zero_page(address)
    }

    fn store(&mut self, address: usize, value: u8) {
        (**self).store(address, value)
    }

    fn load(&mut self, address: usize) -> (value: u8) {
        (**self).load(address)
    }

    fn fence(&mut self) {
        (**self).fence()
    }
}

/// One exchange with a platform.
#[allow(inconsistent_fields)]
pub enum FrameEvent {
    Frame { reply: Option<u64> },
    ReleaseFrame { frame: u64, taken: bool },
    Reserve { pages: u64, alignment_pages: u64, reply: Option<u64> },
    Range { lease: u64, reply: Option<(u64, u64)> },
    ReleaseIova { lease: u64, taken: bool },
    Bind {
        domain: u64,
        device_address: u64,
        frame: u64,
        length: usize,
        access: DmaAccess,
        status: i32,
    },
    Unbind { domain: u64, device_address: u64, length: usize, status: i32 },
    Zero { address: usize },
    Store { address: usize, value: u8 },
    Load { address: usize, value: u8 },
    Fence,
}

/// The platform of a service. Its transcript is the history of the platform.
pub struct FrameTrace<P> {
    pub platform: P,
}

impl<P: HermesDmaPlatform> FrameTrace<P> {
    pub open spec fn log(&self) -> Seq<FrameEvent> {
        self.platform.history()
    }

    fn allocate_frame(&mut self) -> (reply: Option<u64>)
        ensures
            crate::trace::continues(final(self).log(), old(self).log()),
            final(self).log() == old(self).log().push(FrameEvent::Frame { reply }),
    {
        let reply = self.platform.allocate_frame();
        reply
    }

    fn release_frame(&mut self, frame: u64) -> (taken: bool)
        ensures
            crate::trace::continues(final(self).log(), old(self).log()),
            final(self).log() == old(self).log().push(FrameEvent::ReleaseFrame { frame, taken }),
    {
        let taken: bool = self.platform.release_frame(frame);
        taken
    }

    fn reserve_iova(&mut self, pages: u64, alignment_pages: u64) -> (reply: Option<u64>)
        ensures
            crate::trace::continues(final(self).log(), old(self).log()),
            final(self).log() == old(self).log().push(
                FrameEvent::Reserve { pages, alignment_pages, reply },
            ),
    {
        let reply = self.platform.reserve_iova(pages, alignment_pages);
        reply
    }

    fn iova_range(&mut self, lease: u64) -> (reply: Option<(u64, u64)>)
        ensures
            crate::trace::continues(final(self).log(), old(self).log()),
            final(self).log() == old(self).log().push(FrameEvent::Range { lease, reply }),
    {
        let reply = self.platform.iova_range(lease);
        reply
    }

    fn release_iova(&mut self, lease: u64) -> (taken: bool)
        ensures
            crate::trace::continues(final(self).log(), old(self).log()),
            final(self).log() == old(self).log().push(FrameEvent::ReleaseIova { lease, taken }),
    {
        let taken: bool = self.platform.release_iova(lease);
        taken
    }

    fn map_page(&mut self, domain: u64, device_address: u64, frame: u64) -> (status: i32)
        ensures
            crate::trace::continues(final(self).log(), old(self).log()),
            final(self).log() == old(self).log().push(
                FrameEvent::Bind {
                    domain,
                    device_address,
                    frame,
                    length: PAGE_SIZE,
                    access: read_write(),
                    status,
                },
            ),
    {
        let status: i32 = self.platform.map_page(
            domain,
            device_address,
            frame,
            PAGE_SIZE,
            read_write(),
        );
        status
    }

    fn unmap_page(&mut self, domain: u64, device_address: u64) -> (status: i32)
        ensures
            crate::trace::continues(final(self).log(), old(self).log()),
            final(self).log() == old(self).log().push(
                FrameEvent::Unbind { domain, device_address, length: PAGE_SIZE, status },
            ),
    {
        let status: i32 = self.platform.unmap_page(domain, device_address, PAGE_SIZE);
        status
    }

    fn zero_page(&mut self, address: usize)
        ensures
            crate::trace::continues(final(self).log(), old(self).log()),
            final(self).log() == old(self).log().push(FrameEvent::Zero { address }),
    {
        self.platform.zero_page(address);
    }

    fn store(&mut self, address: usize, value: u8)
        ensures
            crate::trace::continues(final(self).log(), old(self).log()),
            final(self).log() == old(self).log().push(FrameEvent::Store { address, value }),
    {
        self.platform.store(address, value);
    }

    fn load(&mut self, address: usize) -> (value: u8)
        ensures
            crate::trace::continues(final(self).log(), old(self).log()),
            final(self).log() == old(self).log().push(FrameEvent::Load { address, value }),
    {
        let value: u8 = self.platform.load(address);
        value
    }

    fn fence(&mut self)
        ensures
            crate::trace::continues(final(self).log(), old(self).log()),
            final(self).log() == old(self).log().push(FrameEvent::Fence),
    {
        self.platform.fence();
    }

}

pub open spec fn frame_at(log: Seq<FrameEvent>, at: int) -> Option<Option<u64>> {
    if 0 <= at < log.len() {
        match log[at] {
            FrameEvent::Frame { reply } => Some(reply),
            _ => None,
        }
    } else {
        None
    }
}

pub open spec fn release_frame_at(frame: u64, log: Seq<FrameEvent>, at: int) -> Option<bool> {
    if 0 <= at < log.len() {
        match log[at] {
            FrameEvent::ReleaseFrame { frame: given, taken } => if given == frame {
                Some(taken)
            } else {
                None
            },
            _ => None,
        }
    } else {
        None
    }
}

pub open spec fn reserve_at(
    pages: u64,
    alignment_pages: u64,
    log: Seq<FrameEvent>,
    at: int,
) -> Option<Option<u64>> {
    if 0 <= at < log.len() {
        match log[at] {
            FrameEvent::Reserve {
                pages: count,
                alignment_pages: step,
                reply,
            } => if count == pages && step == alignment_pages {
                Some(reply)
            } else {
                None
            },
            _ => None,
        }
    } else {
        None
    }
}

pub open spec fn range_at(lease: u64, log: Seq<FrameEvent>, at: int) -> Option<Option<(u64, u64)>> {
    if 0 <= at < log.len() {
        match log[at] {
            FrameEvent::Range { lease: asked, reply } => if asked == lease {
                Some(reply)
            } else {
                None
            },
            _ => None,
        }
    } else {
        None
    }
}

pub open spec fn release_iova_at(lease: u64, log: Seq<FrameEvent>, at: int) -> Option<bool> {
    if 0 <= at < log.len() {
        match log[at] {
            FrameEvent::ReleaseIova { lease: given, taken } => if given == lease {
                Some(taken)
            } else {
                None
            },
            _ => None,
        }
    } else {
        None
    }
}

pub open spec fn bind_at(
    domain: u64,
    device_address: u64,
    frame: u64,
    log: Seq<FrameEvent>,
    at: int,
) -> Option<i32> {
    if 0 <= at < log.len() {
        match log[at] {
            FrameEvent::Bind {
                domain: within,
                device_address: place,
                frame: bound,
                length,
                access,
                status,
            } => if within == domain && place == device_address && bound == frame && length
                == PAGE_SIZE && access == read_write() {
                Some(status)
            } else {
                None
            },
            _ => None,
        }
    } else {
        None
    }
}

pub open spec fn unbind_at(
    domain: u64,
    device_address: u64,
    log: Seq<FrameEvent>,
    at: int,
) -> Option<i32> {
    if 0 <= at < log.len() {
        match log[at] {
            FrameEvent::Unbind {
                domain: within,
                device_address: place,
                length,
                status,
            } => if within == domain && place == device_address && length == PAGE_SIZE {
                Some(status)
            } else {
                None
            },
            _ => None,
        }
    } else {
        None
    }
}

pub open spec fn zeroed_at(address: usize, log: Seq<FrameEvent>, at: int) -> bool {
    0 <= at < log.len() && log[at] == (FrameEvent::Zero { address })
}

/// The name of an allocation.
#[verifier::allow_in_spec]
pub fn encode_handle(slot: usize, generation: u32) -> u64
    requires
        slot < 0xffff_ffff,
    returns
        (((generation as u64) << 32) | ((slot + 1) as u64)),
{
    ((generation as u64) << 32) | (slot as u64 + 1)
}

/// The slot and generation that a name stands for.
#[verifier::allow_in_spec]
pub fn decode_handle(handle: u64) -> Option<(usize, u32)>
    returns
        ({
            let encoded_slot = #[verifier::truncate] (handle as u32);
            let generation = #[verifier::truncate] ((handle >> 32) as u32);
            if encoded_slot == 0 || generation == 0 {
                None
            } else {
                Some(((encoded_slot - 1) as usize, generation))
            }
        }),
{
    let encoded_slot: u32 = #[verifier::truncate] (handle as u32);
    let generation: u32 = #[verifier::truncate] ((handle >> 32) as u32);
    if encoded_slot == 0 || generation == 0 {
        None
    } else {
        Some(((encoded_slot - 1) as usize, generation))
    }
}

/// A name stands for the slot and generation that it was made of.
pub proof fn law_a_handle_decodes_to_what_it_encodes(slot: usize, generation: u32)
    requires
        slot < 0xffff_ffff,
        generation != 0,
    ensures
        decode_handle(encode_handle(slot, generation)) == Some((slot, generation)),
{
    let place = (slot + 1) as u64;
    assert((((generation as u64) << 32) | place) as u32 == place && ((((generation as u64) << 32)
        | place) >> 32) as u32 == generation) by (bit_vector)
        requires
            0 < place <= 0xffff_ffff,
    ;
}

/// Two allocations never share a name.
pub proof fn law_handles_are_distinct(
    first: usize,
    first_generation: u32,
    second: usize,
    second_generation: u32,
)
    requires
        first < 0xffff_ffff,
        second < 0xffff_ffff,
        first_generation != 0,
        second_generation != 0,
        encode_handle(first, first_generation) == encode_handle(second, second_generation),
    ensures
        first == second,
        first_generation == second_generation,
{
    law_a_handle_decodes_to_what_it_encodes(first, first_generation);
    law_a_handle_decodes_to_what_it_encodes(second, second_generation);
}

/// The live record that a name stands for.
pub open spec fn record_of(records: Seq<AllocationRecord>, handle: u64) -> Option<int> {
    match decode_handle(handle) {
        None => None,
        Some((slot, generation)) => if slot < records.len() && records[slot as int].phase
            != AllocationPhase::Empty && records[slot as int].generation == generation {
            Some(slot as int)
        } else {
            None
        },
    }
}

/// The first page from one on that belongs to an allocation at an index.
pub open spec fn page_slot_of(
    pages: Seq<PageRecord>,
    slot: int,
    generation: u32,
    page_index: int,
    from: int,
) -> Option<int>
    decreases pages.len() - from,
{
    if from < 0 || from >= pages.len() {
        None
    } else if pages[from].belongs(slot, generation, page_index) {
        Some(from)
    } else {
        page_slot_of(pages, slot, generation, page_index, from + 1)
    }
}

/// The first empty page from one on.
pub open spec fn empty_page_of(pages: Seq<PageRecord>, from: int) -> Option<int>
    decreases pages.len() - from,
{
    if from < 0 || from >= pages.len() {
        None
    } else if pages[from].phase == PagePhase::Empty {
        Some(from)
    } else {
        empty_page_of(pages, from + 1)
    }
}

pub open spec fn empty_pages_in(pages: Seq<PageRecord>) -> nat
    decreases pages.len(),
{
    if pages.len() == 0 {
        0
    } else {
        empty_pages_in(pages.drop_last()) + if pages.last().phase == PagePhase::Empty {
            1nat
        } else {
            0nat
        }
    }
}

/// The first slot from one on that can hold another allocation.
pub open spec fn free_record_of(records: Seq<AllocationRecord>, from: int) -> Option<int>
    decreases records.len() - from,
{
    if from < 0 || from >= records.len() {
        None
    } else if records[from].phase == AllocationPhase::Empty && records[from].generation
        != u32::MAX {
        Some(from)
    } else {
        free_record_of(records, from + 1)
    }
}

pub open spec fn active_in(records: Seq<AllocationRecord>) -> nat
    decreases records.len(),
{
    if records.len() == 0 {
        0
    } else {
        active_in(records.drop_last()) + if records.last().phase != AllocationPhase::Empty {
            1nat
        } else {
            0nat
        }
    }
}

pub open spec fn quarantined_in(records: Seq<AllocationRecord>) -> nat
    decreases records.len(),
{
    if records.len() == 0 {
        0
    } else {
        quarantined_in(records.drop_last()) + if records.last().phase.quarantined() {
            1nat
        } else {
            0nat
        }
    }
}

/// The pages of an allocation taken from the remapping unit, the last first: the
/// status, and the book after it.
pub open spec fn unbind_run(
    book: DmaBook,
    slot: int,
    record: AllocationRecord,
    count: nat,
    log: Seq<FrameEvent>,
    at: int,
) -> Option<(i32, DmaBook, int)>
    decreases count,
{
    if count == 0 {
        Some((STATUS_OK, book, at))
    } else {
        let index = count - 1;
        let rest = (count - 1) as nat;
        match page_slot_of(book.pages, slot, record.generation, index, 0) {
            None => Some((STATUS_IO_ERROR, book.poison(), at)),
            Some(place) => if book.pages[place].phase != PagePhase::Mapped {
                unbind_run(book, slot, record, rest, log, at)
            } else if record.device_address + index * PAGE_SIZE > u64::MAX {
                Some((STATUS_IO_ERROR, book.poison(), at))
            } else {
                match unbind_at(
                    record.domain,
                    (record.device_address + index * PAGE_SIZE) as u64,
                    log,
                    at,
                ) {
                    None => None,
                    Some(status) => if status != STATUS_OK {
                        Some((status, book, at + 1))
                    } else {
                        unbind_run(
                            book.with_page(
                                place,
                                PageRecord { phase: PagePhase::FrameOwned, ..book.pages[place] },
                            ),
                            slot,
                            record,
                            rest,
                            log,
                            at + 1,
                        )
                    },
                }
            },
        }
    }
}

/// The frames of an allocation given back, the last first. A page that is not there
/// any more was given back before.
pub open spec fn give_back_run(
    book: DmaBook,
    slot: int,
    generation: u32,
    count: nat,
    log: Seq<FrameEvent>,
    at: int,
) -> Option<(i32, DmaBook, int)>
    decreases count,
{
    if count == 0 {
        Some((STATUS_OK, book, at))
    } else {
        match page_slot_of(book.pages, slot, generation, count - 1, 0) {
            None => give_back_run(book, slot, generation, (count - 1) as nat, log, at),
            Some(place) => match release_frame_at(book.pages[place].frame, log, at) {
                None => None,
                Some(taken) => if !taken {
                    Some((STATUS_IO_ERROR, book, at + 1))
                } else {
                    give_back_run(
                        book.with_page(place, PageRecord::empty()),
                        slot,
                        generation,
                        (count - 1) as nat,
                        log,
                        at + 1,
                    )
                },
            },
        }
    }
}

/// The end of a reclaiming: the frames, and the record once all of them are gone.
pub open spec fn finish_run(
    book: DmaBook,
    slot: int,
    record: AllocationRecord,
    log: Seq<FrameEvent>,
    at: int,
) -> Option<(i32, DmaBook, int)> {
    match give_back_run(
        book,
        slot,
        record.generation,
        record.resident_pages as nat,
        log,
        at,
    ) {
        None => None,
        Some((outcome, emptied, end)) => if outcome != STATUS_OK {
            Some((outcome, emptied, end))
        } else {
            Some(
                (
                    STATUS_OK,
                    emptied.with_record(slot, AllocationRecord::empty(record.generation)),
                    end,
                ),
            )
        },
    }
}

/// The reclaiming of an allocation: its mappings, then its device addresses, then
/// its frames. Where a step fails, all that was not given back stays, and the next
/// reclaiming goes on from there: device addresses that are gone are not given back
/// twice.
pub open spec fn reclaim_run(book: DmaBook, slot: int, log: Seq<FrameEvent>, at: int) -> Option<
    (i32, DmaBook, int),
> {
    let record = book.records[slot];
    if record.phase == AllocationPhase::IovaReleased {
        finish_run(book, slot, record, log, at)
    } else {
        let started = book.in_phase(slot, AllocationPhase::ReclaimingMappings);
        match unbind_run(started, slot, record, record.resident_pages as nat, log, at) {
            None => None,
            Some((status, unbound, next)) => if status != STATUS_OK {
                Some((status, unbound, next))
            } else {
                let unmapped = unbound.in_phase(slot, AllocationPhase::HardwareUnmapped);
                match release_iova_at(record.iova, log, next) {
                    None => None,
                    Some(taken) => if !taken {
                        Some((STATUS_IO_ERROR, unmapped.poison(), next + 1))
                    } else {
                        finish_run(
                            unmapped.in_phase(slot, AllocationPhase::IovaReleased),
                            slot,
                            record,
                            log,
                            next + 1,
                        )
                    },
                }
            },
        }
    }
}

/// The rollbacks from a slot on that have not come to their end, tried again.
pub open spec fn quarantine_run(book: DmaBook, slot: int, log: Seq<FrameEvent>, at: int) -> Option<
    (i32, DmaBook, int),
>
    decreases MAXIMUM_HERMES_DMA_LEASES - slot,
{
    if slot < 0 || slot >= MAXIMUM_HERMES_DMA_LEASES {
        Some((STATUS_OK, book, at))
    } else if !book.records[slot].phase.quarantined() {
        quarantine_run(book, slot + 1, log, at)
    } else {
        match reclaim_run(book, slot, log, at) {
            None => None,
            Some((status, after, next)) => if status != STATUS_OK {
                Some((status, after, next))
            } else {
                quarantine_run(after, slot + 1, log, next)
            },
        }
    }
}

/// Where a frame lies for the processor.
pub open spec fn pointer_of(base: usize, limit: u64, frame: u64) -> Option<usize> {
    if frame + PAGE_SIZE > limit || base + frame > usize::MAX {
        None
    } else {
        Some((base + frame) as usize)
    }
}

/// A rollback, and the status that is told of it.
pub open spec fn abandon_run(
    book: DmaBook,
    slot: int,
    status: i32,
    log: Seq<FrameEvent>,
    at: int,
) -> Option<(i32, DmaBook, int)> {
    match reclaim_run(book, slot, log, at) {
        None => None,
        Some((cleanup, after, next)) => Some(
            (
                if cleanup == STATUS_OK {
                    status
                } else {
                    cleanup
                },
                after,
                next,
            ),
        ),
    }
}

/// The record of a page that was taken for an allocation.
pub open spec fn page_for(slot: int, generation: u32, page_index: int, frame: u64) -> PageRecord {
    PageRecord {
        owner_slot: (slot + 1) as u16,
        owner_generation: generation,
        page_index: page_index as u16,
        frame,
        phase: PagePhase::FrameOwned,
    }
}

/// The frames of an allocation from one on, each zeroed: where the first lies, or
/// the status of the rollback.
pub open spec fn frames_run(
    base: usize,
    limit: u64,
    book: DmaBook,
    slot: int,
    generation: u32,
    count: nat,
    page_index: nat,
    first: Option<usize>,
    log: Seq<FrameEvent>,
    at: int,
) -> Option<(Result<Option<usize>, i32>, DmaBook, int)>
    decreases count - page_index,
{
    if page_index >= count {
        Some((Ok(first), book, at))
    } else {
        match empty_page_of(book.pages, 0) {
            None => match reclaim_run(book.poison(), slot, log, at) {
                None => None,
                Some((_, after, next)) => Some((Err(STATUS_IO_ERROR), after, next)),
            },
            Some(place) => match frame_at(log, at) {
                None => None,
                Some(None) => match abandon_run(book, slot, STATUS_BUSY, log, at + 1) {
                    None => None,
                    Some((status, after, next)) => Some((Err(status), after, next)),
                },
                Some(Some(frame)) => {
                    let held = book.with_page(
                        place,
                        page_for(slot, generation, page_index as int, frame),
                    ).with_record(
                        slot,
                        AllocationRecord {
                            resident_pages: (page_index + 1) as usize,
                            ..book.records[slot]
                        },
                    );
                    match pointer_of(base, limit, frame) {
                        None => match abandon_run(held, slot, STATUS_IO_ERROR, log, at + 1) {
                            None => None,
                            Some((status, after, next)) => Some((Err(status), after, next)),
                        },
                        Some(pointer) => if !zeroed_at(pointer, log, at + 1) {
                            None
                        } else {
                            frames_run(
                                base,
                                limit,
                                held,
                                slot,
                                generation,
                                count,
                                page_index + 1,
                                if page_index == 0 {
                                    if pointer == 0 {
                                        None
                                    } else {
                                        Some(pointer)
                                    }
                                } else {
                                    first
                                },
                                log,
                                at + 2,
                            )
                        },
                    }
                },
            },
        }
    }
}

/// The pages of an allocation from one on, each mapped in its domain.
pub open spec fn binds_run(
    book: DmaBook,
    slot: int,
    domain: u64,
    start: u64,
    generation: u32,
    count: nat,
    page_index: nat,
    log: Seq<FrameEvent>,
    at: int,
) -> Option<(Result<(), i32>, DmaBook, int)>
    decreases count - page_index,
{
    if page_index >= count {
        Some((Ok(()), book, at))
    } else {
        match page_slot_of(book.pages, slot, generation, page_index as int, 0) {
            None => None,
            Some(place) => match bind_at(
                domain,
                (start + page_index * PAGE_SIZE) as u64,
                book.pages[place].frame,
                log,
                at,
            ) {
                None => None,
                Some(status) => if status != STATUS_OK {
                    match abandon_run(book, slot, status, log, at + 1) {
                        None => None,
                        Some((told, after, next)) => Some((Err(told), after, next)),
                    }
                } else {
                    binds_run(
                        book.with_page(
                            place,
                            PageRecord { phase: PagePhase::Mapped, ..book.pages[place] },
                        ),
                        slot,
                        domain,
                        start,
                        generation,
                        count,
                        page_index + 1,
                        log,
                        at + 1,
                    )
                },
            },
        }
    }
}

pub open spec fn fenced_at(log: Seq<FrameEvent>, at: int) -> bool {
    0 <= at < log.len() && log[at] is Fence
}

/// An allocation whose device addresses are leased: frames, mappings and receipt.
pub open spec fn populate_run(
    base: usize,
    limit: u64,
    book: DmaBook,
    slot: int,
    domain: u64,
    start: u64,
    count: nat,
    log: Seq<FrameEvent>,
    at: int,
) -> Option<(Result<DmaAllocation, i32>, DmaBook, int)> {
    let generation = book.records[slot].generation;
    match frames_run(base, limit, book, slot, generation, count, 0, None, log, at) {
        None => None,
        Some((Err(status), after, next)) => Some((Err(status), after, next)),
        Some((Ok(first), held, next)) => if !fenced_at(log, next) {
            None
        } else {
            match binds_run(held, slot, domain, start, generation, count, 0, log, next + 1) {
                None => None,
                Some((Err(status), after, end)) => Some((Err(status), after, end)),
                Some((Ok(_), bound, end)) => {
                    let mapped = bound.in_phase(slot, AllocationPhase::Mapped);
                    match first {
                        None => match reclaim_run(mapped.poison(), slot, log, end) {
                            None => None,
                            Some((_, after, last)) => Some((Err(STATUS_IO_ERROR), after, last)),
                        },
                        Some(pointer) => Some(
                            (
                                Ok(
                                    DmaAllocation {
                                        handle: encode_handle(slot as usize, generation),
                                        cpu_pointer: pointer,
                                        device_address: start,
                                    },
                                ),
                                mapped,
                                end,
                            ),
                        ),
                    }
                },
            }
        },
    }
}

/// How many pages hold so many bytes.
pub open spec fn pages_for(length: usize) -> int {
    (length + (PAGE_SIZE - 1)) / PAGE_SIZE as int
}

/// An allocation that found its slot: the lease of device addresses, and the rest.
pub open spec fn lease_run(
    base: usize,
    limit: u64,
    book: DmaBook,
    slot: int,
    domain: u64,
    length: usize,
    alignment: usize,
    log: Seq<FrameEvent>,
    at: int,
) -> Option<(Result<DmaAllocation, i32>, DmaBook, int)> {
    let count = pages_for(length);
    let step = if alignment < PAGE_SIZE {
        1usize
    } else {
        alignment / PAGE_SIZE
    };
    match reserve_at(count as u64, step as u64, log, at) {
        None => None,
        Some(None) => Some((Err(STATUS_BUSY), book, at + 1)),
        Some(Some(iova)) => match range_at(iova, log, at + 1) {
            None => None,
            Some(None) => Some((Err(STATUS_IO_ERROR), book, at + 2)),
            Some(Some((start, extent))) => if extent != count * PAGE_SIZE || start + extent
                > u64::MAX {
                Some((Err(STATUS_IO_ERROR), book.poison(), at + 2))
            } else {
                populate_run(
                    base,
                    limit,
                    book.with_record(
                        slot,
                        AllocationRecord {
                            generation: (book.records[slot].generation + 1) as u32,
                            phase: AllocationPhase::Mapping,
                            domain,
                            resident_pages: 0,
                            requested_length: length,
                            iova,
                            device_address: start,
                        },
                    ),
                    slot,
                    domain,
                    start,
                    count as nat,
                    log,
                    at + 2,
                )
            },
        },
    }
}

/// An allocation.
pub open spec fn allocate_run(
    base: usize,
    limit: u64,
    book: DmaBook,
    domain: u64,
    length: usize,
    alignment: usize,
    log: Seq<FrameEvent>,
    at: int,
) -> Option<(Result<DmaAllocation, i32>, DmaBook, int)> {
    if domain == 0 || length == 0 || length + (PAGE_SIZE - 1) > usize::MAX
        || !crate::hermes_gsp::power_of_two(alignment as nat) {
        Some((Err(STATUS_INVALID_ARGUMENT), book, at))
    } else if pages_for(length) > MAXIMUM_HERMES_DMA_PAGES {
        Some((Err(STATUS_BUSY), book, at))
    } else {
        match quarantine_run(book, 0, log, at) {
            None => None,
            Some((status, clean, next)) => if status != STATUS_OK {
                Some((Err(status), clean, next))
            } else if clean.poisoned {
                Some((Err(STATUS_IO_ERROR), clean, next))
            } else {
                match free_record_of(clean.records, 0) {
                    None => Some((Err(STATUS_BUSY), clean, next)),
                    Some(slot) => if empty_pages_in(clean.pages) < pages_for(length) {
                        Some((Err(STATUS_BUSY), clean, next))
                    } else {
                        lease_run(base, limit, clean, slot, domain, length, alignment, log, next)
                    },
                }
            },
        }
    }
}

/// A release.
pub open spec fn release_run(
    book: DmaBook,
    domain: u64,
    allocation: u64,
    log: Seq<FrameEvent>,
    at: int,
) -> Option<(i32, DmaBook, int)> {
    match record_of(book.records, allocation) {
        None => Some((STATUS_NOT_FOUND, book, at)),
        Some(slot) => if book.records[slot].domain != domain {
            Some((STATUS_NOT_FOUND, book, at))
        } else {
            reclaim_run(book, slot, log, at)
        },
    }
}

/// Where a byte of an allocation lies for the processor.
pub open spec fn place_at(
    base: usize,
    limit: u64,
    pages: Seq<PageRecord>,
    slot: int,
    generation: u32,
    byte: int,
) -> Option<usize> {
    match page_slot_of(pages, slot, generation, byte / PAGE_SIZE as int, 0) {
        None => None,
        Some(page) => if pages[page].phase != PagePhase::Mapped {
            None
        } else {
            match pointer_of(base, limit, pages[page].frame) {
                None => None,
                Some(pointer) => if pointer + byte % PAGE_SIZE as int > usize::MAX {
                    None
                } else {
                    Some((pointer + byte % PAGE_SIZE as int) as usize)
                },
            }
        },
    }
}

/// Where the bytes from an offset on lie, up to the first that lies nowhere.
pub open spec fn places_of(
    base: usize,
    limit: u64,
    pages: Seq<PageRecord>,
    slot: int,
    generation: u32,
    offset: int,
    length: nat,
) -> Seq<usize>
    decreases length,
{
    if length == 0 {
        Seq::empty()
    } else {
        let head = places_of(base, limit, pages, slot, generation, offset, (length - 1) as nat);
        if head.len() < length - 1 {
            head
        } else {
            match place_at(base, limit, pages, slot, generation, offset + length - 1) {
                None => head,
                Some(place) => head.push(place),
            }
        }
    }
}

/// Bytes stored at places.
pub open spec fn stores(places: Seq<usize>, bytes: Seq<u8>) -> Seq<FrameEvent> {
    Seq::new(
        places.len(),
        |i: int| FrameEvent::Store { address: places[i], value: bytes[i] },
    )
}

/// Bytes loaded from places.
pub open spec fn loads(places: Seq<usize>, bytes: Seq<u8>) -> Seq<FrameEvent> {
    Seq::new(places.len(), |i: int| FrameEvent::Load { address: places[i], value: bytes[i] })
}

/// What is wrong with a span of an allocation first.
pub open spec fn span_fault(
    records: Seq<AllocationRecord>,
    allocation: u64,
    offset: usize,
    length: nat,
) -> Option<i32> {
    match record_of(records, allocation) {
        None => Some(STATUS_NOT_FOUND),
        Some(slot) => if records[slot].phase != AllocationPhase::Mapped || offset + length
            > records[slot].requested_length {
            Some(STATUS_INVALID_ARGUMENT)
        } else {
            None
        },
    }
}

proof fn lemma_places_stop(
    base: usize,
    limit: u64,
    pages: Seq<PageRecord>,
    slot: int,
    generation: u32,
    offset: int,
    stop: nat,
    length: nat,
)
    requires
        stop < length,
        places_of(base, limit, pages, slot, generation, offset, stop).len() == stop,
        place_at(base, limit, pages, slot, generation, offset + stop) is None,
    ensures
        places_of(base, limit, pages, slot, generation, offset, length) == places_of(
            base,
            limit,
            pages,
            slot,
            generation,
            offset,
            stop,
        ),
    decreases length,
{
    if length > stop + 1 {
        lemma_places_stop(
            base,
            limit,
            pages,
            slot,
            generation,
            offset,
            stop,
            (length - 1) as nat,
        );
    }
}

proof fn lemma_page_slot(
    pages: Seq<PageRecord>,
    slot: int,
    generation: u32,
    page_index: int,
    from: int,
)
    requires
        0 <= from,
    ensures
        page_slot_of(pages, slot, generation, page_index, from) matches Some(place) ==> from
            <= place < pages.len() && pages[place].belongs(slot, generation, page_index),
        page_slot_of(pages, slot, generation, page_index, from) is None ==> forall|i: int|
            from <= i < pages.len() ==> !(#[trigger] pages[i]).belongs(
                slot,
                generation,
                page_index,
            ),
    decreases pages.len() - from,
{
    if from < pages.len() && !pages[from].belongs(slot, generation, page_index) {
        lemma_page_slot(pages, slot, generation, page_index, from + 1);
    }
}

proof fn lemma_empty_page(pages: Seq<PageRecord>, from: int)
    requires
        0 <= from,
    ensures
        empty_page_of(pages, from) matches Some(place) ==> from <= place < pages.len()
            && pages[place].phase == PagePhase::Empty,
    decreases pages.len() - from,
{
    if from < pages.len() && pages[from].phase != PagePhase::Empty {
        lemma_empty_page(pages, from + 1);
    }
}

/// Whether an allocation has a page at an index.
pub open spec fn has_page(
    pages: Seq<PageRecord>,
    slot: int,
    generation: u32,
    page_index: int,
) -> bool {
    exists|i: int| 0 <= i < pages.len() && (#[trigger] pages[i]).belongs(
        slot,
        generation,
        page_index,
    )
}

/// DMA storage of frames, bound to one remapping unit.
pub struct FrameBackedHermesDma<P> {
    pub trace: FrameTrace<P>,
    pub direct_map_base: usize,
    pub mapped_physical_limit: u64,
    pub records: [AllocationRecord; 8],
    pub pages: [PageRecord; 512],
    pub poisoned: bool,
    pub served: Ghost<Seq<PlatformEvent>>,
}

impl<P: HermesDmaPlatform> FrameBackedHermesDma<P> {
    pub open spec fn log(&self) -> Seq<FrameEvent> {
        self.trace.log()
    }

    pub open spec fn book(&self) -> DmaBook {
        DmaBook { records: self.records@, pages: self.pages@, poisoned: self.poisoned }
    }

    /// Whether the direct map is the same.
    pub open spec fn same_map(&self, other: &Self) -> bool {
        self.direct_map_base == other.direct_map_base && self.mapped_physical_limit
            == other.mapped_physical_limit
    }

    pub open spec fn same_place(&self, other: &Self) -> bool {
        self.same_map(other) && self.served == other.served
    }

    /// A service over so many frames, behind a direct map of so much memory, with a
    /// ledger of device addresses if there is one.
    pub fn new(
        platform: P,
        managed_frames: u64,
        ledger_opened: bool,
        direct_map_base: usize,
        mapped_physical_limit: u64,
    ) -> (result: Result<Self, i32>)
        ensures
            match result {
                Ok(dma) => {
                    &&& managed_frames * PAGE_SIZE <= mapped_physical_limit
                    &&& direct_map_base + mapped_physical_limit <= usize::MAX
                    &&& ledger_opened
                    &&& dma.trace.platform == platform
                    &&& dma.direct_map_base == direct_map_base
                    &&& dma.mapped_physical_limit == mapped_physical_limit
                    &&& !dma.poisoned
                    &&& dma.served@ == Seq::<PlatformEvent>::empty()
                    &&& forall|i: int|
                        0 <= i < 8 ==> #[trigger] dma.records@[i] == AllocationRecord::empty(0)
                    &&& forall|i: int|
                        0 <= i < 512 ==> #[trigger] dma.pages@[i] == PageRecord::empty()
                },
                Err(status) => status == STATUS_INVALID_ARGUMENT && (managed_frames * PAGE_SIZE
                    > mapped_physical_limit || direct_map_base + mapped_physical_limit > usize::MAX
                    || !ledger_opened),
            },
    {
        let managed_bytes: u64 = match managed_frames.checked_mul(PAGE_SIZE as u64) {
            None => {
                return Err(STATUS_INVALID_ARGUMENT);
            },
            Some(bytes) => bytes,
        };
        if managed_bytes > mapped_physical_limit || mapped_physical_limit > usize::MAX as u64
            || direct_map_base.checked_add(mapped_physical_limit as usize).is_none() {
            return Err(STATUS_INVALID_ARGUMENT);
        }
        if !ledger_opened {
            return Err(STATUS_INVALID_ARGUMENT);
        }
        Ok(
            FrameBackedHermesDma {
                trace: FrameTrace { platform },
                direct_map_base,
                mapped_physical_limit,
                records: [AllocationRecord::empty(0);8],
                pages: [PageRecord::empty();512],
                poisoned: false,
                served: Ghost(Seq::empty()),
            },
        )
    }

    pub fn active_allocation_count(&self) -> (count: usize)
        ensures
            count == active_in(self.records@),
    {
        let mut count: usize = 0;
        let mut index: usize = 0;
        assert(self.records@.take(0) =~= Seq::<AllocationRecord>::empty());
        while index < 8
            invariant
                index <= 8,
                count <= index,
                count == active_in(self.records@.take(index as int)),
            decreases 8 - index,
        {
            proof {
                assert(self.records@.take(index + 1).drop_last() =~= self.records@.take(
                    index as int,
                ));
            }
            if self.records[index].phase != AllocationPhase::Empty {
                count = count + 1;
            }
            index = index + 1;
        }
        assert(self.records@.take(8) =~= self.records@);
        count
    }

    pub fn quarantined_allocation_count(&self) -> (count: usize)
        ensures
            count == quarantined_in(self.records@),
    {
        let mut count: usize = 0;
        let mut index: usize = 0;
        assert(self.records@.take(0) =~= Seq::<AllocationRecord>::empty());
        while index < 8
            invariant
                index <= 8,
                count <= index,
                count == quarantined_in(self.records@.take(index as int)),
            decreases 8 - index,
        {
            proof {
                assert(self.records@.take(index + 1).drop_last() =~= self.records@.take(
                    index as int,
                ));
            }
            if self.records[index].phase.quarantined() {
                count = count + 1;
            }
            index = index + 1;
        }
        assert(self.records@.take(8) =~= self.records@);
        count
    }

    pub fn pointer(&self, frame: u64) -> (result: Result<usize, i32>)
        ensures
            result == (match pointer_of(self.direct_map_base, self.mapped_physical_limit, frame) {
                None => Err(STATUS_IO_ERROR),
                Some(pointer) => Ok(pointer),
            }),
    {
        match frame.checked_add(PAGE_SIZE as u64) {
            None => {
                return Err(STATUS_IO_ERROR);
            },
            Some(end) => {
                if end > self.mapped_physical_limit {
                    return Err(STATUS_IO_ERROR);
                }
            },
        }
        if frame > usize::MAX as u64 {
            return Err(STATUS_IO_ERROR);
        }
        match self.direct_map_base.checked_add(frame as usize) {
            None => Err(STATUS_IO_ERROR),
            Some(pointer) => Ok(pointer),
        }
    }

    fn record(&self, handle: u64) -> (result: Option<usize>)
        ensures
            record_of(self.records@, handle) == (match result {
                None => None::<int>,
                Some(slot) => Some(slot as int),
            }),
            result matches Some(slot) ==> slot < 8,
    {
        match decode_handle(handle) {
            None => None,
            Some((slot, generation)) => if slot >= MAXIMUM_HERMES_DMA_LEASES {
                None
            } else {
                let record = self.records[slot];
                if record.phase == AllocationPhase::Empty || record.generation != generation {
                    None
                } else {
                    Some(slot)
                }
            },
        }
    }

    fn page_slot(&self, slot: usize, generation: u32, page_index: usize) -> (result: Option<usize>)
        requires
            slot < 8,
        ensures
            page_slot_of(self.pages@, slot as int, generation, page_index as int, 0) == (
            match result {
                None => None::<int>,
                Some(place) => Some(place as int),
            }),
            result matches Some(place) ==> place < 512,
    {
        let mut place: usize = 0;
        while place < MAXIMUM_HERMES_DMA_PAGES
            invariant
                place <= 512,
                slot < 8,
                page_slot_of(self.pages@, slot as int, generation, page_index as int, 0)
                    == page_slot_of(
                    self.pages@,
                    slot as int,
                    generation,
                    page_index as int,
                    place as int,
                ),
            decreases 512 - place,
        {
            let page = self.pages[place];
            if page.phase != PagePhase::Empty && page.owner_slot as usize == slot + 1
                && page.owner_generation == generation && page.page_index as usize == page_index {
                return Some(place);
            }
            place = place + 1;
        }
        None
    }

    fn empty_page(&self) -> (result: Option<usize>)
        ensures
            empty_page_of(self.pages@, 0) == (match result {
                None => None::<int>,
                Some(place) => Some(place as int),
            }),
            result matches Some(place) ==> place < 512,
    {
        let mut place: usize = 0;
        while place < MAXIMUM_HERMES_DMA_PAGES
            invariant
                place <= 512,
                empty_page_of(self.pages@, 0) == empty_page_of(self.pages@, place as int),
            decreases 512 - place,
        {
            if self.pages[place].phase == PagePhase::Empty {
                return Some(place);
            }
            place = place + 1;
        }
        None
    }

    fn count_empty_pages(&self) -> (count: usize)
        ensures
            count == empty_pages_in(self.pages@),
    {
        let mut count: usize = 0;
        let mut index: usize = 0;
        assert(self.pages@.take(0) =~= Seq::<PageRecord>::empty());
        while index < MAXIMUM_HERMES_DMA_PAGES
            invariant
                index <= 512,
                count <= index,
                count == empty_pages_in(self.pages@.take(index as int)),
            decreases 512 - index,
        {
            proof {
                assert(self.pages@.take(index + 1).drop_last() =~= self.pages@.take(index as int));
            }
            if self.pages[index].phase == PagePhase::Empty {
                count = count + 1;
            }
            index = index + 1;
        }
        assert(self.pages@.take(512) =~= self.pages@);
        count
    }

    fn free_record(&self) -> (result: Option<usize>)
        ensures
            free_record_of(self.records@, 0) == (match result {
                None => None::<int>,
                Some(slot) => Some(slot as int),
            }),
            result matches Some(slot) ==> slot < 8 && self.records@[slot as int].generation
                != u32::MAX,
    {
        let mut index: usize = 0;
        while index < MAXIMUM_HERMES_DMA_LEASES
            invariant
                index <= 8,
                free_record_of(self.records@, 0) == free_record_of(self.records@, index as int),
            decreases 8 - index,
        {
            let record = self.records[index];
            if record.phase == AllocationPhase::Empty && record.generation != u32::MAX {
                return Some(index);
            }
            index = index + 1;
        }
        None
    }

    fn set_phase(&mut self, slot: usize, phase: AllocationPhase)
        requires
            slot < 8,
        ensures
            final(self).same_place(old(self)),
            final(self).trace == old(self).trace,
            final(self).book() == old(self).book().in_phase(slot as int, phase),
    {
        let record = self.records[slot];
        self.records[slot] = AllocationRecord { phase, ..record };
        assert(self.book() =~= old(self).book().in_phase(slot as int, phase));
    }

    fn set_page(&mut self, place: usize, page: PageRecord)
        requires
            place < 512,
        ensures
            final(self).same_place(old(self)),
            final(self).trace == old(self).trace,
            final(self).book() == old(self).book().with_page(place as int, page),
    {
        self.pages[place] = page;
        assert(self.book() =~= old(self).book().with_page(place as int, page));
    }

    fn set_record(&mut self, slot: usize, record: AllocationRecord)
        requires
            slot < 8,
        ensures
            final(self).same_place(old(self)),
            final(self).trace == old(self).trace,
            final(self).book() == old(self).book().with_record(slot as int, record),
    {
        self.records[slot] = record;
        assert(self.book() =~= old(self).book().with_record(slot as int, record));
    }

    fn set_poisoned(&mut self)
        ensures
            final(self).same_place(old(self)),
            final(self).trace == old(self).trace,
            final(self).book() == old(self).book().poison(),
    {
        self.poisoned = true;
    }

    fn unbind_pages(&mut self, slot: usize, record: AllocationRecord) -> (result: i32)
        requires
            slot < 8,
        ensures
            crate::trace::continues(final(self).log(), old(self).log()),
            final(self).same_place(old(self)),
            forall|log: Seq<FrameEvent>| #[trigger]
                crate::trace::continues(log, final(self).log()) ==> unbind_run(
                    old(self).book(),
                    slot as int,
                    record,
                    record.resident_pages as nat,
                    log,
                    old(self).log().len() as int,
                ) == Some(
                    (result, final(self).book(), final(self).log().len() as int),
                ),
    {
        let ghost start = self.log().len() as int;
        let mut remaining: usize = record.resident_pages;
        while remaining > 0
            invariant
                slot < 8,
                start == old(self).log().len(),
                self.same_place(old(self)),
                crate::trace::continues(self.log(), old(self).log()),
                forall|log: Seq<FrameEvent>| #[trigger]
                    crate::trace::continues(log, self.log()) ==> unbind_run(
                        old(self).book(),
                        slot as int,
                        record,
                        record.resident_pages as nat,
                        log,
                        start,
                    ) == unbind_run(
                        self.book(),
                        slot as int,
                        record,
                        remaining as nat,
                        log,
                        self.log().len() as int,
                    ),
            decreases remaining,
        {
            let index: usize = remaining - 1;
            let place: usize = match self.page_slot(slot, record.generation, index) {
                None => {
                    self.set_poisoned();
                    return STATUS_IO_ERROR;
                },
                Some(place) => place,
            };
            let page = self.pages[place];
            if page.phase == PagePhase::Mapped {
                let device_address: u64 = match (index as u64).checked_mul(PAGE_SIZE as u64) {
                    None => {
                        self.set_poisoned();
                        return STATUS_IO_ERROR;
                    },
                    Some(distance) => match record.device_address.checked_add(distance) {
                        None => {
                            self.set_poisoned();
                            return STATUS_IO_ERROR;
                        },
                        Some(address) => address,
                    },
                };
                let ghost head = self.log();
                let status: i32 = self.trace.unmap_page(record.domain, device_address);
                assert(self.log()[head.len() as int] == FrameEvent::Unbind {
                    domain: record.domain,
                    device_address,
                    length: PAGE_SIZE,
                    status,
                });
                if status != STATUS_OK {
                    return status;
                }
                self.set_page(place, PageRecord { phase: PagePhase::FrameOwned, ..page });
            }
            remaining = index;
        }
        STATUS_OK
    }

    fn give_back_frames(&mut self, slot: usize, generation: u32, count: usize) -> (result: i32)
        requires
            slot < 8,
        ensures
            crate::trace::continues(final(self).log(), old(self).log()),
            final(self).same_place(old(self)),
            forall|log: Seq<FrameEvent>| #[trigger]
                crate::trace::continues(log, final(self).log()) ==> give_back_run(
                    old(self).book(),
                    slot as int,
                    generation,
                    count as nat,
                    log,
                    old(self).log().len() as int,
                ) == Some(
                    (result, final(self).book(), final(self).log().len() as int),
                ),
    {
        let ghost start = self.log().len() as int;
        let mut remaining: usize = count;
        while remaining > 0
            invariant
                slot < 8,
                start == old(self).log().len(),
                self.same_place(old(self)),
                crate::trace::continues(self.log(), old(self).log()),
                forall|log: Seq<FrameEvent>| #[trigger]
                    crate::trace::continues(log, self.log()) ==> give_back_run(
                        old(self).book(),
                        slot as int,
                        generation,
                        count as nat,
                        log,
                        start,
                    ) == give_back_run(
                        self.book(),
                        slot as int,
                        generation,
                        remaining as nat,
                        log,
                        self.log().len() as int,
                    ),
            decreases remaining,
        {
            let index: usize = remaining - 1;
            match self.page_slot(slot, generation, index) {
                None => {},
                Some(place) => {
                    let frame: u64 = self.pages[place].frame;
                    let ghost head = self.log();
                    let taken: bool = self.trace.release_frame(frame);
                    assert(self.log()[head.len() as int] == FrameEvent::ReleaseFrame {
                        frame,
                        taken,
                    });
                    if !taken {
                        return STATUS_IO_ERROR;
                    }
                    self.set_page(place, PageRecord::empty());
                },
            }
            remaining = index;
        }
        STATUS_OK
    }

    /// Gives back all of an allocation, as far as it goes.
    fn reclaim_record(&mut self, slot: usize) -> (result: i32)
        requires
            slot < 8,
        ensures
            crate::trace::continues(final(self).log(), old(self).log()),
            final(self).same_place(old(self)),
            forall|log: Seq<FrameEvent>| #[trigger]
                crate::trace::continues(log, final(self).log()) ==> reclaim_run(
                    old(self).book(),
                    slot as int,
                    log,
                    old(self).log().len() as int,
                ) == Some(
                    (result, final(self).book(), final(self).log().len() as int),
                ),
    {
        let record = self.records[slot];
        if record.phase != AllocationPhase::IovaReleased {
            self.set_phase(slot, AllocationPhase::ReclaimingMappings);
            let status: i32 = self.unbind_pages(slot, record);
            if status != STATUS_OK {
                return status;
            }
            self.set_phase(slot, AllocationPhase::HardwareUnmapped);
            let ghost head = self.log();
            let taken: bool = self.trace.release_iova(record.iova);
            assert(self.log()[head.len() as int] == FrameEvent::ReleaseIova {
                lease: record.iova,
                taken,
            });
            if !taken {
                self.set_poisoned();
                return STATUS_IO_ERROR;
            }
            self.set_phase(slot, AllocationPhase::IovaReleased);
        }
        let outcome: i32 = self.give_back_frames(slot, record.generation, record.resident_pages);
        if outcome != STATUS_OK {
            return outcome;
        }
        self.set_record(slot, AllocationRecord::empty(record.generation));
        STATUS_OK
    }

    fn reclaim_quarantined(&mut self) -> (result: i32)
        ensures
            crate::trace::continues(final(self).log(), old(self).log()),
            final(self).same_place(old(self)),
            forall|log: Seq<FrameEvent>| #[trigger]
                crate::trace::continues(log, final(self).log()) ==> quarantine_run(
                    old(self).book(),
                    0,
                    log,
                    old(self).log().len() as int,
                ) == Some(
                    (result, final(self).book(), final(self).log().len() as int),
                ),
    {
        let ghost start = self.log().len() as int;
        let mut slot: usize = 0;
        while slot < MAXIMUM_HERMES_DMA_LEASES
            invariant
                slot <= 8,
                start == old(self).log().len(),
                self.same_place(old(self)),
                crate::trace::continues(self.log(), old(self).log()),
                forall|log: Seq<FrameEvent>| #[trigger]
                    crate::trace::continues(log, self.log()) ==> quarantine_run(
                        old(self).book(),
                        0,
                        log,
                        start,
                    ) == quarantine_run(
                        self.book(),
                        slot as int,
                        log,
                        self.log().len() as int,
                    ),
            decreases 8 - slot,
        {
            if self.records[slot].phase.quarantined() {
                let status: i32 = self.reclaim_record(slot);
                if status != STATUS_OK {
                    return status;
                }
            }
            slot = slot + 1;
        }
        STATUS_OK
    }

    fn abandon(&mut self, slot: usize, status: i32) -> (result: i32)
        requires
            slot < 8,
        ensures
            crate::trace::continues(final(self).log(), old(self).log()),
            final(self).same_place(old(self)),
            forall|log: Seq<FrameEvent>| #[trigger]
                crate::trace::continues(log, final(self).log()) ==> abandon_run(
                    old(self).book(),
                    slot as int,
                    status,
                    log,
                    old(self).log().len() as int,
                ) == Some(
                    (result, final(self).book(), final(self).log().len() as int),
                ),
    {
        let cleanup: i32 = self.reclaim_record(slot);
        if cleanup == STATUS_OK {
            status
        } else {
            cleanup
        }
    }

    fn take_frames(&mut self, slot: usize, generation: u32, count: usize) -> (result: Result<
        Option<usize>,
        i32,
    >)
        requires
            slot < 8,
            count <= MAXIMUM_HERMES_DMA_PAGES,
        ensures
            result is Ok ==> forall|j: int|
                0 <= j < count ==> #[trigger] has_page(
                    final(self).pages@,
                    slot as int,
                    generation,
                    j,
                ),
            crate::trace::continues(final(self).log(), old(self).log()),
            final(self).same_place(old(self)),
            forall|log: Seq<FrameEvent>| #[trigger]
                crate::trace::continues(log, final(self).log()) ==> frames_run(
                    old(self).direct_map_base,
                    old(self).mapped_physical_limit,
                    old(self).book(),
                    slot as int,
                    generation,
                    count as nat,
                    0,
                    None,
                    log,
                    old(self).log().len() as int,
                ) == Some(
                    (result, final(self).book(), final(self).log().len() as int),
                ),
    {
        let ghost start = self.log().len() as int;
        let mut first: Option<usize> = None;
        let mut page_index: usize = 0;
        while page_index < count
            invariant
                slot < 8,
                page_index <= count <= 512,
                start == old(self).log().len(),
                self.same_place(old(self)),
                crate::trace::continues(self.log(), old(self).log()),
                forall|j: int|
                    0 <= j < page_index ==> #[trigger] has_page(
                        self.pages@,
                        slot as int,
                        generation,
                        j,
                    ),
                forall|log: Seq<FrameEvent>| #[trigger]
                    crate::trace::continues(log, self.log()) ==> frames_run(
                        old(self).direct_map_base,
                        old(self).mapped_physical_limit,
                        old(self).book(),
                        slot as int,
                        generation,
                        count as nat,
                        0,
                        None,
                        log,
                        start,
                    ) == frames_run(
                        old(self).direct_map_base,
                        old(self).mapped_physical_limit,
                        self.book(),
                        slot as int,
                        generation,
                        count as nat,
                        page_index as nat,
                        first,
                        log,
                        self.log().len() as int,
                    ),
            decreases count - page_index,
        {
            let place: usize = match self.empty_page() {
                None => {
                    self.set_poisoned();
                    let _ = self.reclaim_record(slot);
                    return Err(STATUS_IO_ERROR);
                },
                Some(place) => place,
            };
            proof {
                lemma_empty_page(self.pages@, 0);
            }
            let ghost head = self.log();
            let ghost before = self.pages@;
            let reply = self.trace.allocate_frame();
            assert(self.log()[head.len() as int] == FrameEvent::Frame { reply });
            let frame: u64 = match reply {
                None => {
                    return Err(self.abandon(slot, STATUS_BUSY));
                },
                Some(frame) => frame,
            };
            let pointer = self.pointer(frame);
            let ghost asked = self.log();
            match pointer {
                Err(_) => {},
                Ok(address) => {
                    self.trace.zero_page(address);
                    assert(self.log()[asked.len() as int] == FrameEvent::Zero { address });
                },
            }
            let ghost unheld = self.book();
            self.set_page(
                place,
                PageRecord {
                    owner_slot: slot as u16 + 1,
                    owner_generation: generation,
                    page_index: page_index as u16,
                    frame,
                    phase: PagePhase::FrameOwned,
                },
            );
            let record = self.records[slot];
            self.set_record(slot, AllocationRecord { resident_pages: page_index + 1, ..record });
            match pointer {
                Err(status) => {
                    return Err(self.abandon(slot, status));
                },
                Ok(address) => {
                    if page_index == 0 {
                        first = if address == 0 {
                            None
                        } else {
                            Some(address)
                        };
                    }
                },
            }
            proof {
                assert forall|j: int| 0 <= j < page_index + 1 implies #[trigger] has_page(
                    self.pages@,
                    slot as int,
                    generation,
                    j,
                ) by {
                    if j == page_index {
                        assert(self.pages@[place as int].belongs(slot as int, generation, j));
                    } else {
                        assert(has_page(before, slot as int, generation, j));
                        let i = choose|i: int|
                            0 <= i < before.len() && (#[trigger] before[i]).belongs(
                                slot as int,
                                generation,
                                j,
                            );
                        assert(self.pages@[i] == before[i]);
                    }
                }
            }
            page_index = page_index + 1;
        }
        Ok(first)
    }

    fn bind_pages(
        &mut self,
        slot: usize,
        domain: u64,
        start_address: u64,
        generation: u32,
        count: usize,
    ) -> (result: Result<(), i32>)
        requires
            slot < 8,
            count <= MAXIMUM_HERMES_DMA_PAGES,
            start_address + count * PAGE_SIZE <= u64::MAX,
            forall|j: int|
                0 <= j < count ==> #[trigger] has_page(
                    old(self).pages@,
                    slot as int,
                    generation,
                    j,
                ),
        ensures
            crate::trace::continues(final(self).log(), old(self).log()),
            final(self).same_place(old(self)),
            forall|log: Seq<FrameEvent>| #[trigger]
                crate::trace::continues(log, final(self).log()) ==> binds_run(
                    old(self).book(),
                    slot as int,
                    domain,
                    start_address,
                    generation,
                    count as nat,
                    0,
                    log,
                    old(self).log().len() as int,
                ) == Some(
                    (result, final(self).book(), final(self).log().len() as int),
                ),
    {
        let ghost start = self.log().len() as int;
        let mut page_index: usize = 0;
        while page_index < count
            invariant
                slot < 8,
                page_index <= count <= 512,
                start_address + count * PAGE_SIZE <= u64::MAX,
                start == old(self).log().len(),
                self.same_place(old(self)),
                crate::trace::continues(self.log(), old(self).log()),
                forall|j: int|
                    0 <= j < count ==> #[trigger] has_page(
                        self.pages@,
                        slot as int,
                        generation,
                        j,
                    ),
                forall|log: Seq<FrameEvent>| #[trigger]
                    crate::trace::continues(log, self.log()) ==> binds_run(
                        old(self).book(),
                        slot as int,
                        domain,
                        start_address,
                        generation,
                        count as nat,
                        0,
                        log,
                        start,
                    ) == binds_run(
                        self.book(),
                        slot as int,
                        domain,
                        start_address,
                        generation,
                        count as nat,
                        page_index as nat,
                        log,
                        self.log().len() as int,
                    ),
            decreases count - page_index,
        {
            assert(has_page(self.pages@, slot as int, generation, page_index as int));
            proof {
                lemma_page_slot(self.pages@, slot as int, generation, page_index as int, 0);
            }
            let place: usize = match self.page_slot(slot, generation, page_index) {
                None => {
                    assert(false);
                    return Err(STATUS_IO_ERROR);
                },
                Some(place) => place,
            };
            let page = self.pages[place];
            let device_address: u64 = start_address + page_index as u64 * PAGE_SIZE as u64;
            let ghost head = self.log();
            let ghost before = self.pages@;
            let status: i32 = self.trace.map_page(domain, device_address, page.frame);
            assert(self.log()[head.len() as int] == FrameEvent::Bind {
                domain,
                device_address,
                frame: page.frame,
                length: PAGE_SIZE,
                access: read_write(),
                status,
            });
            if status != STATUS_OK {
                return Err(self.abandon(slot, status));
            }
            self.set_page(place, PageRecord { phase: PagePhase::Mapped, ..page });
            proof {
                assert forall|j: int| 0 <= j < count implies #[trigger] has_page(
                    self.pages@,
                    slot as int,
                    generation,
                    j,
                ) by {
                    assert(has_page(before, slot as int, generation, j));
                    let i = choose|i: int|
                        0 <= i < before.len() && (#[trigger] before[i]).belongs(
                            slot as int,
                            generation,
                            j,
                        );
                    assert(self.pages@[i].belongs(slot as int, generation, j));
                }
            }
            page_index = page_index + 1;
        }
        Ok(())
    }

    fn populate(&mut self, slot: usize, domain: u64, start_address: u64, count: usize) -> (result:
        Result<DmaAllocation, i32>)
        requires
            slot < 8,
            count <= MAXIMUM_HERMES_DMA_PAGES,
            start_address + count * PAGE_SIZE <= u64::MAX,
        ensures
            crate::trace::continues(final(self).log(), old(self).log()),
            final(self).same_place(old(self)),
            forall|log: Seq<FrameEvent>| #[trigger]
                crate::trace::continues(log, final(self).log()) ==> populate_run(
                    old(self).direct_map_base,
                    old(self).mapped_physical_limit,
                    old(self).book(),
                    slot as int,
                    domain,
                    start_address,
                    count as nat,
                    log,
                    old(self).log().len() as int,
                ) == Some(
                    (result, final(self).book(), final(self).log().len() as int),
                ),
    {
        let generation: u32 = self.records[slot].generation;
        let first = match self.take_frames(slot, generation, count) {
            Err(status) => {
                return Err(status);
            },
            Ok(first) => first,
        };
        let ghost head = self.log();
        self.trace.fence();
        assert(self.log()[head.len() as int] is Fence);
        match self.bind_pages(slot, domain, start_address, generation, count) {
            Err(status) => {
                return Err(status);
            },
            Ok(_) => {},
        }
        self.set_phase(slot, AllocationPhase::Mapped);
        match first {
            None => {
                self.set_poisoned();
                let _ = self.reclaim_record(slot);
                Err(STATUS_IO_ERROR)
            },
            Some(cpu_pointer) => Ok(
                DmaAllocation {
                    handle: encode_handle(slot, generation),
                    cpu_pointer,
                    device_address: start_address,
                },
            ),
        }
    }

    fn lease(
        &mut self,
        slot: usize,
        domain: u64,
        length: usize,
        alignment: usize,
    ) -> (result: Result<
        DmaAllocation,
        i32,
    >)
        requires
            slot < 8,
            old(self).records@[slot as int].generation != u32::MAX,
            0 < length,
            length + (PAGE_SIZE - 1) <= usize::MAX,
            pages_for(length) <= MAXIMUM_HERMES_DMA_PAGES,
        ensures
            crate::trace::continues(final(self).log(), old(self).log()),
            final(self).same_place(old(self)),
            forall|log: Seq<FrameEvent>| #[trigger]
                crate::trace::continues(log, final(self).log()) ==> lease_run(
                    old(self).direct_map_base,
                    old(self).mapped_physical_limit,
                    old(self).book(),
                    slot as int,
                    domain,
                    length,
                    alignment,
                    log,
                    old(self).log().len() as int,
                ) == Some(
                    (result, final(self).book(), final(self).log().len() as int),
                ),
    {
        let count: usize = (length + (PAGE_SIZE - 1)) / PAGE_SIZE;
        let step: usize = if alignment < PAGE_SIZE {
            1
        } else {
            alignment / PAGE_SIZE
        };
        let reply = self.trace.reserve_iova(count as u64, step as u64);
        let ghost reserved = self.log();
        assert(reserved[old(self).log().len() as int] == FrameEvent::Reserve {
            pages: count as u64,
            alignment_pages: step as u64,
            reply,
        });
        let iova: u64 = match reply {
            None => {
                return Err(STATUS_BUSY);
            },
            Some(iova) => iova,
        };
        let range = self.trace.iova_range(iova);
        assert(
            self.log()[reserved.len() as int] == FrameEvent::Range { lease: iova, reply: range }
        );
        let (start_address, extent): (u64, u64) = match range {
            None => {
                return Err(STATUS_IO_ERROR);
            },
            Some(range) => range,
        };
        if extent != count as u64 * PAGE_SIZE as u64 || start_address.checked_add(extent).is_none() {
            self.set_poisoned();
            return Err(STATUS_IO_ERROR);
        }
        let generation: u32 = self.records[slot].generation + 1;
        self.set_record(
            slot,
            AllocationRecord {
                generation,
                phase: AllocationPhase::Mapping,
                domain,
                resident_pages: 0,
                requested_length: length,
                iova,
                device_address: start_address,
            },
        );
        self.populate(slot, domain, start_address, count)
    }

    fn span_status(&self, allocation: u64, offset: usize, length: usize) -> (result: Result<
        usize,
        i32,
    >)
        ensures
            match result {
                Err(status) => span_fault(self.records@, allocation, offset, length as nat) == Some(
                    status,
                ),
                Ok(slot) => {
                    &&& slot < 8
                    &&& span_fault(self.records@, allocation, offset, length as nat) is None
                    &&& record_of(self.records@, allocation) == Some(slot as int)
                    &&& offset + length <= usize::MAX
                },
            },
    {
        match self.record(allocation) {
            None => Err(STATUS_NOT_FOUND),
            Some(slot) => {
                let record = self.records[slot];
                if record.phase != AllocationPhase::Mapped {
                    return Err(STATUS_INVALID_ARGUMENT);
                }
                match offset.checked_add(length) {
                    None => Err(STATUS_INVALID_ARGUMENT),
                    Some(end) => if end > record.requested_length {
                        Err(STATUS_INVALID_ARGUMENT)
                    } else {
                        Ok(slot)
                    },
                }
            },
        }
    }

    fn place(&self, slot: usize, generation: u32, byte: usize) -> (result: Option<usize>)
        requires
            slot < 8,
        ensures
            result == place_at(
                self.direct_map_base,
                self.mapped_physical_limit,
                self.pages@,
                slot as int,
                generation,
                byte as int,
            ),
    {
        match self.page_slot(slot, generation, byte / PAGE_SIZE) {
            None => None,
            Some(page) => if self.pages[page].phase != PagePhase::Mapped {
                None
            } else {
                match self.pointer(self.pages[page].frame) {
                    Err(_) => None,
                    Ok(pointer) => pointer.checked_add(byte % PAGE_SIZE),
                }
            },
        }
    }
}

impl<P: HermesDmaPlatform> FrameBackedHermesDma<P> {
    fn allocate_memory(
        &mut self,
        domain: u64,
        length: usize,
        alignment: usize,
    ) -> (result: Result<DmaAllocation, i32>)
        ensures
            crate::trace::continues(final(self).log(), old(self).log()),
            final(self).same_place(old(self)),
            forall|log: Seq<FrameEvent>| #[trigger]
                crate::trace::continues(log, final(self).log()) ==> allocate_run(
                    old(self).direct_map_base,
                    old(self).mapped_physical_limit,
                    old(self).book(),
                    domain,
                    length,
                    alignment,
                    log,
                    old(self).log().len() as int,
                ) == Some(
                    (result, final(self).book(), final(self).log().len() as int),
                ),
    {
        if domain == 0 || length == 0 || alignment == 0 || !is_power_of_two(alignment as u64) {
            return Err(STATUS_INVALID_ARGUMENT);
        }
        match length.checked_add(PAGE_SIZE - 1) {
            None => {
                return Err(STATUS_INVALID_ARGUMENT);
            },
            Some(padded) => {
                if padded / PAGE_SIZE > MAXIMUM_HERMES_DMA_PAGES {
                    return Err(STATUS_BUSY);
                }
            },
        }
        let status: i32 = self.reclaim_quarantined();
        if status != STATUS_OK {
            return Err(status);
        }
        if self.poisoned {
            return Err(STATUS_IO_ERROR);
        }
        let slot: usize = match self.free_record() {
            None => {
                return Err(STATUS_BUSY);
            },
            Some(slot) => slot,
        };
        if self.count_empty_pages() < (length + (PAGE_SIZE - 1)) / PAGE_SIZE {
            return Err(STATUS_BUSY);
        }
        self.lease(slot, domain, length, alignment)
    }

    fn release_memory(&mut self, domain: u64, allocation: u64) -> (result: i32)
        ensures
            crate::trace::continues(final(self).log(), old(self).log()),
            final(self).same_place(old(self)),
            forall|log: Seq<FrameEvent>| #[trigger]
                crate::trace::continues(log, final(self).log()) ==> release_run(
                    old(self).book(),
                    domain,
                    allocation,
                    log,
                    old(self).log().len() as int,
                ) == Some(
                    (result, final(self).book(), final(self).log().len() as int),
                ),
    {
        match self.record(allocation) {
            None => STATUS_NOT_FOUND,
            Some(slot) => if self.records[slot].domain != domain {
                STATUS_NOT_FOUND
            } else {
                self.reclaim_record(slot)
            },
        }
    }

    fn write_memory(&mut self, allocation: u64, offset: usize, bytes: &[u8]) -> (status: i32)
        ensures
            final(self).same_place(old(self)),
            final(self).book() == old(self).book(),
            match span_fault(old(self).records@, allocation, offset, bytes@.len()) {
                Some(fault) => status == fault && final(self).log() == old(self).log(),
                None => {
                    let slot = record_of(old(self).records@, allocation).unwrap();
                    let places = places_of(
                        old(self).direct_map_base,
                        old(self).mapped_physical_limit,
                        old(self).pages@,
                        slot,
                        old(self).records@[slot].generation,
                        offset as int,
                        bytes@.len(),
                    );
                    &&& status == (if places.len() == bytes@.len() {
                        STATUS_OK
                    } else {
                        STATUS_IO_ERROR
                    })
                    &&& final(self).log() == old(self).log() + stores(places, bytes@)
                },
            },
    {
        let slot: usize = match self.span_status(allocation, offset, bytes.len()) {
            Err(status) => {
                return status;
            },
            Ok(slot) => slot,
        };
        let generation: u32 = self.records[slot].generation;
        let ghost base = self.direct_map_base;
        let ghost limit = self.mapped_physical_limit;
        let ghost pages = self.pages@;
        assert(self.log() =~= old(self).log() + stores(
            places_of(base, limit, pages, slot as int, generation, offset as int, 0),
            bytes@,
        ));
        let mut index: usize = 0;
        while index < bytes.len()
            invariant
                slot < 8,
                index <= bytes@.len(),
                offset + bytes@.len() <= usize::MAX,
                self.same_place(old(self)),
                self.records == old(self).records,
                self.pages == old(self).pages,
                self.poisoned == old(self).poisoned,
                base == old(self).direct_map_base,
                limit == old(self).mapped_physical_limit,
                pages == old(self).pages@,
                span_fault(old(self).records@, allocation, offset, bytes@.len()) is None,
                record_of(old(self).records@, allocation) == Some(slot as int),
                generation == old(self).records@[slot as int].generation,
                places_of(
                    base,
                    limit,
                    pages,
                    slot as int,
                    generation,
                    offset as int,
                    index as nat,
                ).len() == index,
                self.log() == old(self).log() + stores(
                    places_of(
                        base,
                        limit,
                        pages,
                        slot as int,
                        generation,
                        offset as int,
                        index as nat,
                    ),
                    bytes@,
                ),
            decreases bytes@.len() - index,
        {
            let address: usize = match self.place(slot, generation, offset + index) {
                None => {
                    proof {
                        lemma_places_stop(
                            base,
                            limit,
                            pages,
                            slot as int,
                            generation,
                            offset as int,
                            index as nat,
                            bytes@.len(),
                        );
                    }
                    return STATUS_IO_ERROR;
                },
                Some(address) => address,
            };
            self.trace.store(address, bytes[index]);
            index = index + 1;
            assert(self.log() =~= old(self).log() + stores(
                places_of(
                    base,
                    limit,
                    pages,
                    slot as int,
                    generation,
                    offset as int,
                    index as nat,
                ),
                bytes@,
            ));
        }
        STATUS_OK
    }

    fn read_memory(&mut self, allocation: u64, offset: usize, bytes: &mut [u8]) -> (status: i32)
        ensures
            final(self).same_place(old(self)),
            final(self).book() == old(self).book(),
            final(bytes)@.len() == old(bytes)@.len(),
            match span_fault(old(self).records@, allocation, offset, old(bytes)@.len()) {
                Some(fault) => status == fault && final(self).log() == old(self).log()
                    && final(bytes)@ == old(bytes)@,
                None => {
                    let slot = record_of(old(self).records@, allocation).unwrap();
                    let places = places_of(
                        old(self).direct_map_base,
                        old(self).mapped_physical_limit,
                        old(self).pages@,
                        slot,
                        old(self).records@[slot].generation,
                        offset as int,
                        old(bytes)@.len(),
                    );
                    &&& status == (if places.len() == old(bytes)@.len() {
                        STATUS_OK
                    } else {
                        STATUS_IO_ERROR
                    })
                    &&& final(self).log() == old(self).log() + loads(places, final(bytes)@)
                    &&& forall|i: int|
                        places.len() <= i < old(bytes)@.len() ==> #[trigger] final(bytes)@[i]
                            == old(bytes)@[i]
                },
            },
    {
        let slot: usize = match self.span_status(allocation, offset, bytes.len()) {
            Err(status) => {
                return status;
            },
            Ok(slot) => slot,
        };
        let generation: u32 = self.records[slot].generation;
        let length: usize = bytes.len();
        let ghost base = self.direct_map_base;
        let ghost limit = self.mapped_physical_limit;
        let ghost pages = self.pages@;
        assert(self.log() =~= old(self).log() + loads(
            places_of(base, limit, pages, slot as int, generation, offset as int, 0),
            bytes@,
        ));
        let mut index: usize = 0;
        while index < length
            invariant
                slot < 8,
                index <= length,
                length == bytes@.len(),
                length == old(bytes)@.len(),
                offset + length <= usize::MAX,
                self.same_place(old(self)),
                self.records == old(self).records,
                self.pages == old(self).pages,
                self.poisoned == old(self).poisoned,
                base == old(self).direct_map_base,
                limit == old(self).mapped_physical_limit,
                pages == old(self).pages@,
                span_fault(old(self).records@, allocation, offset, length as nat) is None,
                record_of(old(self).records@, allocation) == Some(slot as int),
                generation == old(self).records@[slot as int].generation,
                places_of(
                    base,
                    limit,
                    pages,
                    slot as int,
                    generation,
                    offset as int,
                    index as nat,
                ).len() == index,
                self.log() == old(self).log() + loads(
                    places_of(
                        base,
                        limit,
                        pages,
                        slot as int,
                        generation,
                        offset as int,
                        index as nat,
                    ),
                    bytes@,
                ),
                forall|i: int| index <= i < length ==> #[trigger] bytes@[i] == old(bytes)@[i],
            decreases length - index,
        {
            let address: usize = match self.place(slot, generation, offset + index) {
                None => {
                    proof {
                        lemma_places_stop(
                            base,
                            limit,
                            pages,
                            slot as int,
                            generation,
                            offset as int,
                            index as nat,
                            length as nat,
                        );
                    }
                    return STATUS_IO_ERROR;
                },
                Some(address) => address,
            };
            let value: u8 = self.trace.load(address);
            bytes[index] = value;
            index = index + 1;
            assert(self.log() =~= old(self).log() + loads(
                places_of(
                    base,
                    limit,
                    pages,
                    slot as int,
                    generation,
                    offset as int,
                    index as nat,
                ),
                bytes@,
            ));
        }
        STATUS_OK
    }

    fn publish_memory(&mut self, allocation: u64, offset: usize, length: usize) -> (status: i32)
        ensures
            final(self).same_place(old(self)),
            final(self).book() == old(self).book(),
            match span_fault(old(self).records@, allocation, offset, length as nat) {
                Some(fault) => status == fault && final(self).log() == old(self).log(),
                None => status == STATUS_OK && final(self).log() == old(self).log().push(
                    FrameEvent::Fence,
                ),
            },
    {
        match self.span_status(allocation, offset, length) {
            Err(status) => status,
            Ok(_) => {
                self.trace.fence();
                STATUS_OK
            },
        }
    }

    fn acquire_memory(&mut self, allocation: u64, offset: usize, length: usize) -> (status: i32)
        ensures
            final(self).same_place(old(self)),
            final(self).book() == old(self).book(),
            match span_fault(old(self).records@, allocation, offset, length as nat) {
                Some(fault) => status == fault && final(self).log() == old(self).log(),
                None => status == STATUS_OK && final(self).log() == old(self).log().push(
                    FrameEvent::Fence,
                ),
            },
    {
        match self.span_status(allocation, offset, length) {
            Err(status) => status,
            Ok(_) => {
                self.trace.fence();
                STATUS_OK
            },
        }
    }
}

impl<P: HermesDmaPlatform> HermesDomainDmaService for FrameBackedHermesDma<P> {
    open spec fn history(&self) -> Seq<PlatformEvent> {
        self.served@
    }

    fn supports(&mut self, purpose: DmaPurpose) -> (supported: bool)
        ensures
            supported,
            final(self).same_map(old(self)),
            final(self).book() == old(self).book(),
            final(self).log() == old(self).log(),
    {
        proof {
            self.served@ = self.served@.push(PlatformEvent::Supports { purpose, reply: true });
        }
        true
    }

    fn allocate(
        &mut self,
        domain: u64,
        length: usize,
        alignment: usize,
        purpose: DmaPurpose,
    ) -> (result: Result<DmaAllocation, i32>)
        ensures
            crate::trace::continues(final(self).log(), old(self).log()),
            final(self).same_map(old(self)),
            forall|log: Seq<FrameEvent>| #[trigger]
                crate::trace::continues(log, final(self).log()) ==> allocate_run(
                    old(self).direct_map_base,
                    old(self).mapped_physical_limit,
                    old(self).book(),
                    domain,
                    length,
                    alignment,
                    log,
                    old(self).log().len() as int,
                ) == Some(
                    (result, final(self).book(), final(self).log().len() as int),
                ),
    {
        let result = self.allocate_memory(domain, length, alignment);
        proof {
            self.served@ = self.served@.push(
                PlatformEvent::Allocate { domain, length, alignment, purpose, reply: result },
            );
        }
        result
    }

    fn release(&mut self, domain: u64, allocation: u64) -> (result: i32)
        ensures
            crate::trace::continues(final(self).log(), old(self).log()),
            final(self).same_map(old(self)),
            forall|log: Seq<FrameEvent>| #[trigger]
                crate::trace::continues(log, final(self).log()) ==> release_run(
                    old(self).book(),
                    domain,
                    allocation,
                    log,
                    old(self).log().len() as int,
                ) == Some(
                    (result, final(self).book(), final(self).log().len() as int),
                ),
    {
        let result: i32 = self.release_memory(domain, allocation);
        proof {
            self.served@ = self.served@.push(
                PlatformEvent::Release { domain, allocation, status: result },
            );
        }
        result
    }

    fn write(&mut self, allocation: u64, offset: usize, bytes: &[u8]) -> (status: i32)
        ensures
            final(self).same_map(old(self)),
            final(self).book() == old(self).book(),
            match span_fault(old(self).records@, allocation, offset, bytes@.len()) {
                Some(fault) => status == fault && final(self).log() == old(self).log(),
                None => {
                    let slot = record_of(old(self).records@, allocation).unwrap();
                    let places = places_of(
                        old(self).direct_map_base,
                        old(self).mapped_physical_limit,
                        old(self).pages@,
                        slot,
                        old(self).records@[slot].generation,
                        offset as int,
                        bytes@.len(),
                    );
                    &&& status == (if places.len() == bytes@.len() {
                        STATUS_OK
                    } else {
                        STATUS_IO_ERROR
                    })
                    &&& final(self).log() == old(self).log() + stores(places, bytes@)
                },
            },
    {
        let status: i32 = self.write_memory(allocation, offset, bytes);
        proof {
            self.served@ = self.served@.push(
                PlatformEvent::Write { allocation, offset, bytes: bytes@, status },
            );
        }
        status
    }

    fn read(&mut self, allocation: u64, offset: usize, bytes: &mut [u8]) -> (status: i32)
        ensures
            final(self).same_map(old(self)),
            final(self).book() == old(self).book(),
            final(bytes)@.len() == old(bytes)@.len(),
            match span_fault(old(self).records@, allocation, offset, old(bytes)@.len()) {
                Some(fault) => status == fault && final(self).log() == old(self).log()
                    && final(bytes)@ == old(bytes)@,
                None => {
                    let slot = record_of(old(self).records@, allocation).unwrap();
                    let places = places_of(
                        old(self).direct_map_base,
                        old(self).mapped_physical_limit,
                        old(self).pages@,
                        slot,
                        old(self).records@[slot].generation,
                        offset as int,
                        old(bytes)@.len(),
                    );
                    &&& status == (if places.len() == old(bytes)@.len() {
                        STATUS_OK
                    } else {
                        STATUS_IO_ERROR
                    })
                    &&& final(self).log() == old(self).log() + loads(places, final(bytes)@)
                    &&& forall|i: int|
                        places.len() <= i < old(bytes)@.len() ==> #[trigger] final(bytes)@[i]
                            == old(bytes)@[i]
                },
            },
    {
        let ghost room = bytes@.len();
        let status: i32 = self.read_memory(allocation, offset, bytes);
        proof {
            self.served@ = self.served@.push(
                PlatformEvent::Read { allocation, offset, room, bytes: bytes@, status },
            );
        }
        status
    }

    fn publish(&mut self, allocation: u64, offset: usize, length: usize) -> (status: i32)
        ensures
            final(self).same_map(old(self)),
            final(self).book() == old(self).book(),
            match span_fault(old(self).records@, allocation, offset, length as nat) {
                Some(fault) => status == fault && final(self).log() == old(self).log(),
                None => status == STATUS_OK && final(self).log() == old(self).log().push(
                    FrameEvent::Fence,
                ),
            },
    {
        let status: i32 = self.publish_memory(allocation, offset, length);
        proof {
            self.served@ = self.served@.push(
                PlatformEvent::Publish { allocation, offset, length, status },
            );
        }
        status
    }

    fn acquire(&mut self, allocation: u64, offset: usize, length: usize) -> (status: i32)
        ensures
            final(self).same_map(old(self)),
            final(self).book() == old(self).book(),
            match span_fault(old(self).records@, allocation, offset, length as nat) {
                Some(fault) => status == fault && final(self).log() == old(self).log(),
                None => status == STATUS_OK && final(self).log() == old(self).log().push(
                    FrameEvent::Fence,
                ),
            },
    {
        let status: i32 = self.acquire_memory(allocation, offset, length);
        proof {
            self.served@ = self.served@.push(
                PlatformEvent::Acquire { allocation, offset, length, status },
            );
        }
        status
    }
}

/// Whether a page is another allocation's, or the same with its mapping gone.
pub open spec fn page_kept(before: PageRecord, after: PageRecord) -> bool {
    after == before || (before.phase == PagePhase::Mapped && after == (PageRecord {
        phase: PagePhase::FrameOwned,
        ..before
    }))
}

proof fn lemma_unbind(
    book: DmaBook,
    slot: int,
    record: AllocationRecord,
    count: nat,
    log: Seq<FrameEvent>,
    at: int,
)
    ensures
        unbind_run(book, slot, record, count, log, at) matches Some((status, after, _)) ==> {
            &&& after.records == book.records
            &&& after.pages.len() == book.pages.len()
            &&& (book.poisoned ==> after.poisoned)
            &&& (status == STATUS_OK ==> after.poisoned == book.poisoned)
            &&& forall|i: int|
                0 <= i < book.pages.len() ==> page_kept(book.pages[i], #[trigger] after.pages[i])
            &&& forall|i: int|
                0 <= i < book.pages.len() && !(book.pages[i].owner_slot == slot + 1
                    && book.pages[i].owner_generation == record.generation) ==> #[trigger]
                after.pages[i] == book.pages[i]
        },
    decreases count,
{
    if count > 0 {
        let index = count - 1;
        let rest = (count - 1) as nat;
        lemma_page_slot(book.pages, slot, record.generation, index, 0);
        match page_slot_of(book.pages, slot, record.generation, index, 0) {
            None => {},
            Some(place) => {
                lemma_unbind(book, slot, record, rest, log, at);
                lemma_unbind(
                    book.with_page(
                        place,
                        PageRecord { phase: PagePhase::FrameOwned, ..book.pages[place] },
                    ),
                    slot,
                    record,
                    rest,
                    log,
                    at + 1,
                );
            },
        }
    }
}

proof fn lemma_give_back(
    book: DmaBook,
    slot: int,
    generation: u32,
    count: nat,
    log: Seq<FrameEvent>,
    at: int,
)
    ensures
        give_back_run(book, slot, generation, count, log, at) matches Some((_, after, _)) ==> {
            &&& after.records == book.records
            &&& after.pages.len() == book.pages.len()
            &&& after.poisoned == book.poisoned
            &&& forall|i: int|
                0 <= i < book.pages.len() && !(book.pages[i].owner_slot == slot + 1
                    && book.pages[i].owner_generation == generation) ==> #[trigger] after.pages[i]
                    == book.pages[i]
        },
    decreases count,
{
    if count > 0 {
        lemma_page_slot(book.pages, slot, generation, count - 1, 0);
        match page_slot_of(book.pages, slot, generation, count - 1, 0) {
            None => {
                lemma_give_back(book, slot, generation, (count - 1) as nat, log, at);
            },
            Some(place) => {
                let after = book.with_page(place, PageRecord::empty());
                lemma_give_back(after, slot, generation, (count - 1) as nat, log, at + 1);
                match give_back_run(after, slot, generation, (count - 1) as nat, log, at + 1) {
                    None => {},
                    Some((_, end, _)) => {
                        assert forall|i: int|
                            0 <= i < book.pages.len() && !(book.pages[i].owner_slot == slot + 1
                                && book.pages[i].owner_generation == generation) implies #[trigger]
                        end.pages[i] == book.pages[i] by {
                            assert(after.pages[i] == book.pages[i]);
                        }
                    },
                }
            },
        }
    }
}

/// While mappings are taken from the remapping unit, every frame stays with its
/// allocation, whatever goes wrong.
pub proof fn law_unmapping_keeps_every_frame(
    book: DmaBook,
    slot: int,
    record: AllocationRecord,
    count: nat,
    log: Seq<FrameEvent>,
    at: int,
)
    ensures
        unbind_run(
            book,
            slot,
            record,
            count,
            log,
            at,
        ) matches Some((_, after, _)) ==> forall|i: int|
            0 <= i < book.pages.len() ==> (#[trigger] after.pages[i]).frame == book.pages[i].frame
                && after.pages[i].owner_slot == book.pages[i].owner_slot && (
            after.pages[i].phase == PagePhase::Empty <==> book.pages[i].phase == PagePhase::Empty),
{
    lemma_unbind(book, slot, record, count, log, at);
}

/// Reclaiming one allocation leaves the records and the pages of all others alone.
pub proof fn law_reclaiming_touches_one_allocation(
    book: DmaBook,
    slot: int,
    log: Seq<FrameEvent>,
    at: int,
)
    requires
        0 <= slot < book.records.len(),
    ensures
        reclaim_run(book, slot, log, at) matches Some((_, after, _)) ==> {
            &&& after.records.len() == book.records.len()
            &&& after.pages.len() == book.pages.len()
            &&& (book.poisoned ==> after.poisoned)
            &&& forall|i: int|
                0 <= i < book.records.len() && i != slot ==> #[trigger] after.records[i]
                    == book.records[i]
            &&& forall|i: int|
                0 <= i < book.pages.len() && !(book.pages[i].owner_slot == slot + 1
                    && book.pages[i].owner_generation == book.records[slot].generation)
                    ==> #[trigger] after.pages[i] == book.pages[i]
        },
{
    let started = book.in_phase(slot, AllocationPhase::ReclaimingMappings);
    let record = book.records[slot];
    lemma_give_back(book, slot, record.generation, record.resident_pages as nat, log, at);
    lemma_unbind(started, slot, record, record.resident_pages as nat, log, at);
    match unbind_run(started, slot, record, record.resident_pages as nat, log, at) {
        None => {},
        Some((_, unbound, next)) => {
            let released = unbound.in_phase(slot, AllocationPhase::HardwareUnmapped).in_phase(
                slot,
                AllocationPhase::IovaReleased,
            );
            lemma_give_back(
                released,
                slot,
                record.generation,
                record.resident_pages as nat,
                log,
                next + 1,
            );
        },
    }
}

/// An allocation that was reclaimed to the end is gone: its name stands for nothing.
pub proof fn law_a_reclaimed_allocation_is_gone(
    book: DmaBook,
    slot: int,
    log: Seq<FrameEvent>,
    at: int,
)
    requires
        0 <= slot < book.records.len() <= 8,
        book.records[slot].generation != 0,
        reclaim_run(book, slot, log, at) matches Some((status, _, _)) && status == STATUS_OK,
    ensures
        reclaim_run(book, slot, log, at) matches Some((_, after, _)) && after.records[slot]
            == AllocationRecord::empty(book.records[slot].generation) && record_of(
            after.records,
            encode_handle(slot as usize, book.records[slot].generation),
        ) is None,
{
    law_reclaiming_touches_one_allocation(book, slot, log, at);
    law_a_handle_decodes_to_what_it_encodes(slot as usize, book.records[slot].generation);
    let started = book.in_phase(slot, AllocationPhase::ReclaimingMappings);
    let record = book.records[slot];
    lemma_give_back(book, slot, record.generation, record.resident_pages as nat, log, at);
    lemma_unbind(started, slot, record, record.resident_pages as nat, log, at);
    match unbind_run(started, slot, record, record.resident_pages as nat, log, at) {
        None => {},
        Some((_, unbound, next)) => {
            lemma_give_back(
                unbound.in_phase(slot, AllocationPhase::HardwareUnmapped).in_phase(
                    slot,
                    AllocationPhase::IovaReleased,
                ),
                slot,
                record.generation,
                record.resident_pages as nat,
                log,
                next + 1,
            );
        },
    }
}

proof fn lemma_another_page_stays(
    pages: Seq<PageRecord>,
    place: int,
    slot: int,
    generation: u32,
    page_index: int,
    from: int,
)
    requires
        0 <= place < pages.len(),
        !pages[place].belongs(slot, generation, page_index),
    ensures
        page_slot_of(
            pages.update(place, PageRecord::empty()),
            slot,
            generation,
            page_index,
            from,
        ) == page_slot_of(pages, slot, generation, page_index, from),
    decreases pages.len() - from,
{
    if 0 <= from < pages.len() {
        lemma_another_page_stays(pages, place, slot, generation, page_index, from + 1);
    }
}

/// Whether a part of a transcript only offers frames, and the pool takes each.
pub open spec fn pool_takes_all(log: Seq<FrameEvent>, from: int, to: int) -> bool {
    forall|i: int|
        from <= i < to ==> (#[trigger] log[i] matches FrameEvent::ReleaseFrame { taken, .. }
            && taken)
}

proof fn lemma_give_back_to_the_end(
    book: DmaBook,
    slot: int,
    generation: u32,
    count: nat,
    log: Seq<FrameEvent>,
    at: int,
)
    requires
        0 <= slot,
    ensures
        give_back_run(book, slot, generation, count, log, at) matches Some((status, after, end))
            ==> {
            &&& at <= end
            &&& forall|i: int| at <= i < end ==> #[trigger] log[i] is ReleaseFrame
            &&& status != STATUS_OK ==> at < end && (
            log[end - 1] matches FrameEvent::ReleaseFrame { taken, .. } && !taken)
            &&& status == STATUS_OK ==> pool_takes_all(log, at, end) && forall|j: int|
                0 <= j < count ==> (#[trigger] page_slot_of(
                    book.pages,
                    slot,
                    generation,
                    j,
                    0,
                ) matches Some(place) ==> after.pages[place] == PageRecord::empty())
        },
    decreases count,
{
    if count > 0 {
        let index = count - 1;
        let rest = (count - 1) as nat;
        lemma_page_slot(book.pages, slot, generation, index, 0);
        match page_slot_of(book.pages, slot, generation, index, 0) {
            None => {
                lemma_give_back_to_the_end(book, slot, generation, rest, log, at);
            },
            Some(place) => {
                let given = book.with_page(place, PageRecord::empty());
                lemma_give_back_to_the_end(given, slot, generation, rest, log, at + 1);
                lemma_give_back(given, slot, generation, rest, log, at + 1);
                match give_back_run(given, slot, generation, rest, log, at + 1) {
                    None => {},
                    Some((status, after, end)) => {
                        assert(given.pages[place] == PageRecord::empty());
                        assert(after.pages[place] == PageRecord::empty());
                        assert forall|j: int| 0 <= j < count implies (#[trigger] page_slot_of(
                            book.pages,
                            slot,
                            generation,
                            j,
                            0,
                        ) matches Some(found) ==> (status == STATUS_OK ==> after.pages[found]
                            == PageRecord::empty())) by {
                            if j < index {
                                lemma_another_page_stays(
                                    book.pages,
                                    place,
                                    slot,
                                    generation,
                                    j,
                                    0,
                                );
                                assert(page_slot_of(given.pages, slot, generation, j, 0)
                                    == page_slot_of(book.pages, slot, generation, j, 0));
                            }
                        }
                    },
                }
            },
        }
    }
}

proof fn lemma_emptied_slot(records: Seq<AllocationRecord>, slot: int, record: AllocationRecord)
    requires
        0 <= slot < records.len(),
        records[slot].phase != AllocationPhase::Empty,
        record.phase == AllocationPhase::Empty,
    ensures
        active_in(records.update(slot, record)) + 1 == active_in(records),
    decreases records.len(),
{
    let updated = records.update(slot, record);
    if slot == records.len() - 1 {
        assert(updated.drop_last() =~= records.drop_last());
    } else {
        assert(updated.drop_last() =~= records.drop_last().update(slot, record));
        lemma_emptied_slot(records.drop_last(), slot, record);
    }
}

/// A release that failed leaves its allocation live under the same name, for the
/// same domain.
pub proof fn law_a_failed_release_leaves_the_allocation_live(
    book: DmaBook,
    domain: u64,
    allocation: u64,
    slot: int,
    log: Seq<FrameEvent>,
    at: int,
    status: i32,
    after: DmaBook,
    end: int,
)
    requires
        record_of(book.records, allocation) == Some(slot),
        book.records[slot].domain == domain,
        release_run(book, domain, allocation, log, at) == Some((status, after, end)),
        status != STATUS_OK,
    ensures
        record_of(after.records, allocation) == Some(slot),
        after.records[slot].domain == domain,
        after.records[slot].resident_pages == book.records[slot].resident_pages,
        after.records.len() == book.records.len(),
{
    let record = book.records[slot];
    let started = book.in_phase(slot, AllocationPhase::ReclaimingMappings);
    lemma_give_back(book, slot, record.generation, record.resident_pages as nat, log, at);
    lemma_unbind(started, slot, record, record.resident_pages as nat, log, at);
    match unbind_run(started, slot, record, record.resident_pages as nat, log, at) {
        None => {},
        Some((_, unbound, next)) => {
            lemma_give_back(
                unbound.in_phase(slot, AllocationPhase::HardwareUnmapped).in_phase(
                    slot,
                    AllocationPhase::IovaReleased,
                ),
                slot,
                record.generation,
                record.resident_pages as nat,
                log,
                next + 1,
            );
        },
    }
}

/// A release that the pool stopped can be retried: it left the service as sound as it
/// was, and once the pool takes the frames that are left, the next release of the same
/// name succeeds. It gives nothing back twice: the frames are all that it offers. Then
/// every page of the allocation is empty, its record is gone, and one allocation less
/// is active.
pub proof fn law_a_release_that_the_pool_stopped_can_be_retried(
    book: DmaBook,
    domain: u64,
    allocation: u64,
    slot: int,
    log: Seq<FrameEvent>,
    at: int,
    refused: i32,
    held: DmaBook,
    between: int,
    later: Seq<FrameEvent>,
    again: int,
    status: i32,
    after: DmaBook,
    end: int,
)
    requires
        record_of(book.records, allocation) == Some(slot),
        book.records[slot].domain == domain,
        release_run(book, domain, allocation, log, at) == Some((refused, held, between)),
        refused != STATUS_OK,
        held.records[slot].phase == AllocationPhase::IovaReleased,
        release_run(held, domain, allocation, later, again) == Some((status, after, end)),
        forall|i: int|
            again <= i < end ==> (#[trigger] later[i] matches FrameEvent::ReleaseFrame {
                taken,
                ..
            } ==> taken),
    ensures
        held.poisoned == book.poisoned,
        status == STATUS_OK,
        pool_takes_all(later, again, end),
        after.poisoned == held.poisoned,
        after.records[slot] == AllocationRecord::empty(book.records[slot].generation),
        record_of(after.records, allocation) is None,
        active_in(after.records) + 1 == active_in(held.records),
        forall|j: int|
            0 <= j < held.records[slot].resident_pages ==> (#[trigger] page_slot_of(
                held.pages,
                slot,
                held.records[slot].generation,
                j,
                0,
            ) matches Some(place) ==> after.pages[place] == PageRecord::empty()),
{
    law_a_failed_release_leaves_the_allocation_live(
        book,
        domain,
        allocation,
        slot,
        log,
        at,
        refused,
        held,
        between,
    );
    let record = held.records[slot];
    let count = record.resident_pages as nat;
    lemma_give_back(
        book,
        slot,
        book.records[slot].generation,
        book.records[slot].resident_pages as nat,
        log,
        at,
    );
    let first = book.records[slot];
    let started = book.in_phase(slot, AllocationPhase::ReclaimingMappings);
    lemma_unbind(started, slot, first, first.resident_pages as nat, log, at);
    match unbind_run(started, slot, first, first.resident_pages as nat, log, at) {
        None => {},
        Some((_, unbound, next)) => {
            lemma_give_back(
                unbound.in_phase(slot, AllocationPhase::HardwareUnmapped).in_phase(
                    slot,
                    AllocationPhase::IovaReleased,
                ),
                slot,
                first.generation,
                first.resident_pages as nat,
                log,
                next + 1,
            );
        },
    }
    lemma_give_back(held, slot, record.generation, count, later, again);
    lemma_give_back_to_the_end(held, slot, record.generation, count, later, again);
    lemma_emptied_slot(
        held.records,
        slot,
        AllocationRecord::empty(book.records[slot].generation),
    );
}

proof fn lemma_quarantine_poison(book: DmaBook, slot: int, log: Seq<FrameEvent>, at: int)
    requires
        book.records.len() == 8,
        book.poisoned,
    ensures
        quarantine_run(book, slot, log, at) matches Some((_, after, _)) ==> after.poisoned,
    decreases MAXIMUM_HERMES_DMA_LEASES - slot,
{
    if 0 <= slot < MAXIMUM_HERMES_DMA_LEASES {
        law_reclaiming_touches_one_allocation(book, slot, log, at);
        if !book.records[slot].phase.quarantined() {
            lemma_quarantine_poison(book, slot + 1, log, at);
        } else {
            match reclaim_run(book, slot, log, at) {
                None => {},
                Some((_, after, next)) => {
                    lemma_quarantine_poison(after, slot + 1, log, next);
                },
            }
        }
    }
}

/// A service whose ledger was found wrong hands out nothing any more.
pub proof fn law_a_poisoned_service_allocates_nothing(
    base: usize,
    limit: u64,
    book: DmaBook,
    domain: u64,
    length: usize,
    alignment: usize,
    log: Seq<FrameEvent>,
    at: int,
)
    requires
        book.records.len() == 8,
        book.poisoned,
    ensures
        !(allocate_run(base, limit, book, domain, length, alignment, log, at) matches Some(
            (Ok(_), _, _),
        )),
{
    lemma_quarantine_poison(book, 0, log, at);
}

/// The byte that was last stored at an address, if one was.
pub open spec fn last_stored(log: Seq<FrameEvent>, address: usize) -> Option<u8>
    decreases log.len(),
{
    if log.len() == 0 {
        None
    } else {
        match log.last() {
            FrameEvent::Store { address: place, value } => if place == address {
                Some(value)
            } else {
                last_stored(log.drop_last(), address)
            },
            _ => last_stored(log.drop_last(), address),
        }
    }
}

/// Whether memory keeps what it is given: a load gives what was last stored.
pub open spec fn keeps_memory(log: Seq<FrameEvent>) -> bool {
    forall|i: int|
        0 <= i < log.len() ==> (#[trigger] log[i] matches FrameEvent::Load { address, value } ==> (
        last_stored(log.take(i), address) matches Some(stored) ==> stored == value))
}

proof fn lemma_loads_store_nothing(
    log: Seq<FrameEvent>,
    places: Seq<usize>,
    bytes: Seq<u8>,
    count: nat,
    address: usize,
)
    requires
        count <= places.len(),
    ensures
        last_stored(log + loads(places, bytes).take(count as int), address) == last_stored(
            log,
            address,
        ),
    decreases count,
{
    let all = log + loads(places, bytes).take(count as int);
    if count == 0 {
        assert(all =~= log);
    } else {
        assert(all.drop_last() =~= log + loads(places, bytes).take(count - 1));
        lemma_loads_store_nothing(log, places, bytes, (count - 1) as nat, address);
    }
}

proof fn lemma_the_stored_stays(
    log: Seq<FrameEvent>,
    places: Seq<usize>,
    bytes: Seq<u8>,
    count: nat,
    at: int,
)
    requires
        places.no_duplicates(),
        0 <= at < count <= places.len(),
    ensures
        last_stored(log + stores(places, bytes).take(count as int), places[at]) == Some(bytes[at]),
    decreases count,
{
    let all = log + stores(places, bytes).take(count as int);
    assert(all.last() == (FrameEvent::Store {
        address: places[count - 1],
        value: bytes[count - 1],
    }));
    assert(all.drop_last() =~= log + stores(places, bytes).take(count - 1));
    if at < count - 1 {
        assert(places[at] != places[count - 1]);
        lemma_the_stored_stays(log, places, bytes, (count - 1) as nat, at);
    }
}

/// Where memory keeps what it is given and no frame is held twice, a read of a span
/// gives back the bytes that a write of it stored, however its pages are scattered.
pub proof fn law_a_read_gives_back_the_written(
    log: Seq<FrameEvent>,
    places: Seq<usize>,
    stored: Seq<u8>,
    fetched: Seq<u8>,
)
    requires
        places.no_duplicates(),
        stored.len() == places.len(),
        fetched.len() == places.len(),
        keeps_memory(log + stores(places, stored) + loads(places, fetched)),
    ensures
        fetched == stored,
{
    let written = log + stores(places, stored);
    let all = written + loads(places, fetched);
    assert forall|i: int| 0 <= i < fetched.len() implies fetched[i] == stored[i] by {
        let place = written.len() as int + i;
        assert(all[place] == loads(places, fetched)[i]);
        assert(all.take(place) =~= written + loads(places, fetched).take(i));
        lemma_loads_store_nothing(written, places, fetched, i as nat, places[i]);
        assert(stores(places, stored).take(places.len() as int) =~= stores(places, stored));
        lemma_the_stored_stays(log, places, stored, places.len(), i);
    }
    assert(fetched =~= stored);
}


/// Whether a page that is in use is one of an allocation's.
pub open spec fn owned_page(page: PageRecord, slot: int, generation: u32) -> bool {
    page.phase != PagePhase::Empty && page.owner_slot == slot + 1 && page.owner_generation
        == generation
}

/// Whether a frame was zeroed in a part of a transcript.
pub open spec fn frame_zeroed(
    base: usize,
    limit: u64,
    frame: u64,
    log: Seq<FrameEvent>,
    from: int,
    to: int,
) -> bool {
    pointer_of(base, limit, frame) matches Some(pointer) && exists|i: int|
        from <= i < to && #[trigger] zeroed_at(pointer, log, i)
}

proof fn lemma_frame_stays_zeroed(
    base: usize,
    limit: u64,
    frame: u64,
    log: Seq<FrameEvent>,
    from: int,
    to: int,
    later: int,
)
    requires
        frame_zeroed(base, limit, frame, log, from, to),
        to <= later,
    ensures
        frame_zeroed(base, limit, frame, log, from, later),
{
    let pointer = pointer_of(base, limit, frame).unwrap();
    let place = choose|i: int| from <= i < to && #[trigger] zeroed_at(pointer, log, i);
    assert(zeroed_at(pointer, log, place));
}

proof fn lemma_frames_are_zeroed(
    base: usize,
    limit: u64,
    book: DmaBook,
    slot: int,
    generation: u32,
    count: nat,
    page_index: nat,
    first: Option<usize>,
    log: Seq<FrameEvent>,
    start: int,
    at: int,
)
    requires
        0 <= start <= at,
        page_index <= count,
        forall|i: int|
            0 <= i < book.pages.len() && owned_page(
                #[trigger] book.pages[i],
                slot,
                generation,
            ) ==> frame_zeroed(base, limit, book.pages[i].frame, log, start, at),
    ensures
        frames_run(
            base,
            limit,
            book,
            slot,
            generation,
            count,
            page_index,
            first,
            log,
            at,
        ) matches Some((Ok(_), held, next)) ==> {
            &&& next == at + 2 * (count - page_index)
            &&& forall|i: int| at <= i < next ==> !(#[trigger] log[i] is Bind)
            &&& held.pages.len() == book.pages.len()
            &&& forall|i: int|
                0 <= i < held.pages.len() && owned_page(
                    #[trigger] held.pages[i],
                    slot,
                    generation,
                ) ==> frame_zeroed(base, limit, held.pages[i].frame, log, start, next)
        },
    decreases count - page_index,
{
    let taken = frame_at(log, at);
    let frame = taken.unwrap().unwrap();
    let pointer = pointer_of(base, limit, frame).unwrap();
    if page_index < count && empty_page_of(book.pages, 0) is Some && taken is Some
        && taken.unwrap() is Some && pointer_of(base, limit, frame) is Some && zeroed_at(
        pointer,
        log,
        at + 1,
    ) {
        let place = empty_page_of(book.pages, 0).unwrap();
        lemma_empty_page(book.pages, 0);
        let page = page_for(slot, generation, page_index as int, frame);
        let held = book.with_page(place, page).with_record(
            slot,
            AllocationRecord {
                resident_pages: (page_index + 1) as usize,
                ..book.records[slot]
            },
        );
        assert forall|i: int|
            0 <= i < held.pages.len() && owned_page(
                #[trigger] held.pages[i],
                slot,
                generation,
            ) implies frame_zeroed(base, limit, held.pages[i].frame, log, start, at + 2) by {
            if i == place {
                assert(zeroed_at(pointer, log, at + 1));
            } else {
                assert(held.pages[i] == book.pages[i]);
                lemma_frame_stays_zeroed(
                    base,
                    limit,
                    book.pages[i].frame,
                    log,
                    start,
                    at,
                    at + 2,
                );
            }
        }
        let found = if page_index == 0 {
            if pointer == 0 {
                None
            } else {
                Some(pointer)
            }
        } else {
            first
        };
        lemma_frames_are_zeroed(
            base,
            limit,
            held,
            slot,
            generation,
            count,
            page_index + 1,
            found,
            log,
            start,
            at + 2,
        );
    }
}

proof fn lemma_bound_frames_are_owned(
    base: usize,
    limit: u64,
    book: DmaBook,
    slot: int,
    domain: u64,
    start_address: u64,
    generation: u32,
    count: nat,
    page_index: nat,
    log: Seq<FrameEvent>,
    start: int,
    fence: int,
    at: int,
)
    requires
        fence < at,
        forall|i: int|
            0 <= i < book.pages.len() && owned_page(
                #[trigger] book.pages[i],
                slot,
                generation,
            ) ==> frame_zeroed(base, limit, book.pages[i].frame, log, start, fence),
    ensures
        binds_run(
            book,
            slot,
            domain,
            start_address,
            generation,
            count,
            page_index,
            log,
            at,
        ) matches Some((Ok(_), _, end)) ==> forall|i: int|
            at <= i < end ==> (#[trigger] log[i] matches FrameEvent::Bind { frame, .. }
                && frame_zeroed(base, limit, frame, log, start, fence)),
    decreases count - page_index,
{
    if page_index < count {
        lemma_page_slot(book.pages, slot, generation, page_index as int, 0);
        match page_slot_of(book.pages, slot, generation, page_index as int, 0) {
            None => {},
            Some(place) => {
                let bound = book.with_page(
                    place,
                    PageRecord { phase: PagePhase::Mapped, ..book.pages[place] },
                );
                assert forall|i: int|
                    0 <= i < bound.pages.len() && owned_page(
                        #[trigger] bound.pages[i],
                        slot,
                        generation,
                    ) implies frame_zeroed(
                    base,
                    limit,
                    bound.pages[i].frame,
                    log,
                    start,
                    fence,
                ) by {
                    assert(owned_page(book.pages[i], slot, generation));
                    assert(bound.pages[i].frame == book.pages[i].frame);
                }
                assert(owned_page(book.pages[place], slot, generation));
                lemma_bound_frames_are_owned(
                    base,
                    limit,
                    bound,
                    slot,
                    domain,
                    start_address,
                    generation,
                    count,
                    page_index + 1,
                    log,
                    start,
                    fence,
                    at + 1,
                );
            },
        }
    }
}

/// A device is shown no frame that was not zeroed for it: in an allocation that
/// succeeds, every frame that is mapped was zeroed before the fence that comes
/// before the first mapping.
pub proof fn law_a_mapped_frame_was_zeroed(
    base: usize,
    limit: u64,
    book: DmaBook,
    slot: int,
    domain: u64,
    start_address: u64,
    count: nat,
    log: Seq<FrameEvent>,
    at: int,
    allocation: DmaAllocation,
    after: DmaBook,
    end: int,
)
    requires
        0 <= at,
        forall|i: int|
            0 <= i < book.pages.len() ==> !owned_page(
                #[trigger] book.pages[i],
                slot,
                book.records[slot].generation,
            ),
        populate_run(base, limit, book, slot, domain, start_address, count, log, at) == Some(
            (Ok::<DmaAllocation, i32>(allocation), after, end),
        ),
    ensures
        fenced_at(log, at + 2 * count),
        forall|i: int|
            at <= i < end && #[trigger] log[i] is Bind ==> at + 2 * count < i && (
            log[i] matches FrameEvent::Bind { frame, .. } && frame_zeroed(
                base,
                limit,
                frame,
                log,
                at,
                at + 2 * count,
            )),
{
    let generation = book.records[slot].generation;
    lemma_frames_are_zeroed(base, limit, book, slot, generation, count, 0, None, log, at, at);
    let (_, held, next) = frames_run(
        base,
        limit,
        book,
        slot,
        generation,
        count,
        0,
        None,
        log,
        at,
    ).unwrap();
    lemma_bound_frames_are_owned(
        base,
        limit,
        held,
        slot,
        domain,
        start_address,
        generation,
        count,
        0,
        log,
        at,
        next,
        next + 1,
    );
}

} // verus!
