//! Laws of device memory: where regions lie and how they come and go.

use vstd::prelude::*;

use crate::hermes_dma::AllocationPhase;
use crate::hermes_dma::AllocationRecord;
use crate::hermes_dma::DmaBook;
use crate::hermes_dma::FrameEvent;
use crate::hermes_dma::PagePhase;
use crate::hermes_dma::PageRecord;
use crate::xhci_dma::DmaEvent;
use crate::xhci_dma::IdentityClaim;
use crate::xhci_dma::IdentityDmaWindow;
use crate::xhci_dma::Placement;
use crate::xhci_dma::XhciDmaError;
use crate::xhci_dma::XhciDmaPurpose;
use crate::xhci_dma::XhciDmaRegionPhase;
use crate::xhci_dma::XhciDmaRegionRecord;
use crate::xhci_dma::XhciDmaReleaseFault;

verus! {

/// An aperture can be used as it is exactly when it is sealed evidence of a
/// generation, whole pages, not empty, within what device and processor can
/// address, cache coherent and not remapped.
pub proof fn law_which_apertures_are_sound(claim: IdentityClaim)
    ensures
        claim.fault() is None <==> {
            let end = claim.physical_start + claim.physical_bytes;
            &&& claim.generation > 0
            &&& claim.evidence_root > 0
            &&& claim.physical_start % 4096 == 0
            &&& claim.physical_bytes % 4096 == 0
            &&& claim.physical_bytes > 0
            &&& end <= u64::MAX
            &&& end <= claim.device_address_limit + 1
            &&& end <= usize::MAX
            &&& claim.direct_map_base + end <= usize::MAX
            &&& claim.direct_map_base + claim.physical_start > 0
            &&& claim.observation.x86_cache_coherent
            &&& !claim.observation.requester_remapping_active
        },
{
}

/// A window covers the bytes claimed, for the processor as far behind the direct
/// map as for the device behind zero.
pub proof fn law_a_window_covers_what_was_claimed(claim: IdentityClaim)
    requires
        claim.fault() is None,
    ensures
        ({
            let window = claim.window();
            &&& window.device == claim.device
            &&& window.physical_start == claim.physical_start
            &&& window.physical_end - window.physical_start == claim.physical_bytes
            &&& window.cpu_start - claim.direct_map_base == window.physical_start
            &&& window.cpu_end - window.cpu_start == claim.physical_bytes
            &&& window.device_address_limit == claim.device_address_limit
            &&& window.generation == claim.generation
            &&& window.evidence_root == claim.evidence_root
            &&& window.proof_root != 0
            &&& window.x86_cache_coherent
            &&& !window.requester_remapping_active
        }),
{
}

/// Purposes are numbered from one in the order in which regions are made.
pub proof fn law_purposes_are_numbered()
    ensures
        XhciDmaPurpose::Dcbaa.code() == 1,
        XhciDmaPurpose::Dcbaa.code() < XhciDmaPurpose::CommandRing.code()
            < XhciDmaPurpose::EventRing.code() < XhciDmaPurpose::EventRingSegmentTable.code()
            < XhciDmaPurpose::ScratchpadPointerArray.code()
            < XhciDmaPurpose::ScratchpadBuffers.code(),
        XhciDmaPurpose::ScratchpadBuffers.code() == 6,
{
}

/// A region of whole pages is placed where it was allocated, and the processor
/// sees it as far behind the direct map; both stay inside the window and below
/// the limit.
pub proof fn law_a_region_lies_where_it_was_allocated(
    window: IdentityDmaWindow,
    limit: u64,
    purpose: XhciDmaPurpose,
    physical: u64,
    page_count: usize,
    placed: Placement,
)
    requires
        page_count > 0,
        crate::xhci_dma::placement(window, limit, purpose, physical, page_count) == Ok::<
            _,
            XhciDmaError,
        >(placed),
    ensures
        placed.physical_end - physical == page_count * 4096,
        placed.cpu_start - window.direct_map_base == physical,
        placed.cpu_end - placed.cpu_start == page_count * 4096,
        window.physical_start <= physical,
        placed.physical_end <= window.physical_end,
        placed.physical_end <= limit + 1,
        window.cpu_start <= placed.cpu_start,
        placed.cpu_end <= window.cpu_end,
{
}

/// A region that fits the window, the limit and the processor's view is placed.
pub proof fn law_a_region_that_fits_is_placed(
    window: IdentityDmaWindow,
    limit: u64,
    purpose: XhciDmaPurpose,
    physical: u64,
    page_count: usize,
)
    requires
        page_count > 0,
        window.physical_start <= physical,
        physical + page_count * 4096 <= window.physical_end,
        physical + page_count * 4096 <= limit + 1,
        window.cpu_start <= window.direct_map_base + physical,
        window.direct_map_base + physical + page_count * 4096 <= window.cpu_end,
    ensures
        crate::xhci_dma::placement(window, limit, purpose, physical, page_count) is Ok,
{
}

/// The records of a region: first the frames that are owned, then the whole
/// extent once it is zeroed; the device address is the physical one.
pub proof fn law_a_record_tells_its_region(
    window: IdentityDmaWindow,
    purpose: XhciDmaPurpose,
    physical: u64,
    page_count: usize,
    placed: Placement,
    secret: u64,
)
    ensures
        ({
            let owned = crate::xhci_dma::owned_record(&window, purpose, physical, page_count);
            let record = crate::xhci_dma::zeroed_record(owned, placed, secret);
            &&& owned.phase == XhciDmaRegionPhase::FrameOwned
            &&& record.phase == XhciDmaRegionPhase::Zeroed
            &&& record.purpose == purpose
            &&& record.device == window.device
            &&& record.generation == window.generation
            &&& record.page_count == page_count
            &&& record.physical_start == physical
            &&& record.device_address_start == physical
            &&& record.physical_end == placed.physical_end
            &&& record.device_address_end == placed.physical_end
            &&& record.cpu_start == placed.cpu_start
            &&& record.cpu_end == placed.cpu_end
        }),
{
}

/// One pointer page holds 512 scratchpad pointers: there are as few pages as
/// hold them all.
pub proof fn law_pointer_pages_hold_every_pointer(count: u16)
    ensures
        crate::xhci_dma::pointer_pages(count) * 512 >= count,
        count > 0 ==> (crate::xhci_dma::pointer_pages(count) - 1) * 512 < count,
        count == 0 ==> crate::xhci_dma::pointer_pages(count) == 0,
{
}

/// Four regions of one page are always made, in the order of their numbers, and
/// with scratchpads their pointers and as many pages as there are buffers.
pub proof fn law_which_regions_are_made(count: u16, i: int)
    requires
        0 <= i < 4,
    ensures
        ({
            let plan = crate::xhci_dma::region_plan(count);
            &&& plan.len() == (if count == 0 {
                4int
            } else {
                6
            })
            &&& plan[i].0.code() == i + 1
            &&& plan[i].1 == 1
            &&& count > 0 ==> plan[4].0.code() == 5 && plan[5].0.code() == 6 && plan[5].1 == count
                && plan[4].1 * 512 >= count
        }),
{
}

/// A region is found by its purpose, the first of its kind.
pub proof fn law_a_region_is_found_by_its_purpose(
    records: Seq<XhciDmaRegionRecord>,
    purpose: XhciDmaPurpose,
    from: int,
)
    requires
        0 <= from <= records.len(),
    ensures
        crate::xhci_dma::region_for(records, purpose, from) matches Some(record) ==> record.purpose
            == purpose && exists|i: int|
            from <= i < records.len() && #[trigger] records[i] == record,
        crate::xhci_dma::region_for(records, purpose, from) is None <==> forall|i: int|
            from <= i < records.len() ==> (#[trigger] records[i]).purpose != purpose,
    decreases records.len() - from,
{
    if from < records.len() {
        if records[from].purpose == purpose {
            assert(records[from] == records[from]);
        } else {
            law_a_region_is_found_by_its_purpose(records, purpose, from + 1);
            if let Some(record) = crate::xhci_dma::region_for(records, purpose, from + 1) {
                let i = choose|i: int|
                    from + 1 <= i < records.len() && #[trigger] records[i] == record;
                assert(records[i] == record);
            }
        }
    }
}

/// A controller without 64-bit addressing stays below 4 gibibytes, one with it
/// below its own limit.
pub proof fn law_the_limit_follows_the_addressing(limit: u64)
    ensures
        crate::xhci_dma::effective_limit(limit, true) == limit,
        crate::xhci_dma::effective_limit(limit, false) <= limit,
        crate::xhci_dma::effective_limit(limit, false) < 0x1_0000_0000,
        limit < 0x1_0000_0000 ==> crate::xhci_dma::effective_limit(limit, false) == limit,
        limit >= 0x1_0000_0000 ==> crate::xhci_dma::effective_limit(limit, false) == 0xffff_ffff,
{
}

/// Scratchpad pointer `i` is written eight times `i` behind the start of the
/// array and holds the address of page `i` of the buffers.
pub proof fn law_scratchpad_pointers_name_successive_pages(
    array: XhciDmaRegionRecord,
    buffers: XhciDmaRegionRecord,
    count: u16,
    index: int,
    log: Seq<DmaEvent>,
    at: int,
    end: int,
    i: int,
)
    requires
        0 <= index <= count,
        index <= i < count,
        array.cpu_start <= array.cpu_end,
        crate::xhci_dma::pointers_run(array, buffers, count, index, log, at) == Some(
            (None::<XhciDmaError>, end),
        ),
    ensures
        end == at + count - index,
        log[at + i - index] is WriteWord,
        log[at + i - index]->WriteWord_cpu_address == array.cpu_start + 8 * i,
        log[at + i - index]->WriteWord_value == buffers.device_address_start + 4096 * i,
        array.cpu_start + 8 * i + 8 <= array.cpu_end,
    decreases count - index,
{
    lemma_pointers_end(array, buffers, count, index, log, at, end);
    if i > index {
        law_scratchpad_pointers_name_successive_pages(
            array,
            buffers,
            count,
            index + 1,
            log,
            at + 1,
            end,
            i,
        );
    }
}

proof fn lemma_pointers_end(
    array: XhciDmaRegionRecord,
    buffers: XhciDmaRegionRecord,
    count: u16,
    index: int,
    log: Seq<DmaEvent>,
    at: int,
    end: int,
)
    requires
        0 <= index <= count,
        crate::xhci_dma::pointers_run(array, buffers, count, index, log, at) == Some(
            (None::<XhciDmaError>, end),
        ),
    ensures
        end == at + count - index,
    decreases count - index,
{
    if index < count {
        lemma_pointers_end(array, buffers, count, index + 1, log, at + 1, end);
    }
}

/// The device context array begins with the address of the pointer array.
pub proof fn law_the_first_context_names_the_pointers(
    records: Seq<XhciDmaRegionRecord>,
    count: u16,
    log: Seq<DmaEvent>,
    at: int,
    end: int,
)
    requires
        crate::xhci_dma::links_run(records, count, log, at) == Some((None::<XhciDmaError>, end)),
    ensures
        end == at + count + 1,
        log[end - 1] is WriteWord,
        crate::xhci_dma::region_for(records, XhciDmaPurpose::Dcbaa, 0) matches Some(dcbaa) && (
        crate::xhci_dma::region_for(
            records,
            XhciDmaPurpose::ScratchpadPointerArray,
            0,
        ) matches Some(array) && log[end - 1]->WriteWord_cpu_address == dcbaa.cpu_start && log[end
            - 1]->WriteWord_value == array.device_address_start),
{
    let array = crate::xhci_dma::region_for(
        records,
        XhciDmaPurpose::ScratchpadPointerArray,
        0,
    )->0;
    let buffers = crate::xhci_dma::region_for(records, XhciDmaPurpose::ScratchpadBuffers, 0)->0;
    let (done, next) = crate::xhci_dma::pointers_run(array, buffers, count, 0, log, at)->0;
    lemma_pointers_end(array, buffers, count, 0, log, at, next);
}

/// Regions are given back from the last to the first, each whole, and counted by
/// their pages.
pub proof fn law_regions_are_given_back_in_reverse(
    records: Seq<XhciDmaRegionRecord>,
    released: int,
    left: int,
    log: Seq<DmaEvent>,
    at: int,
    after: Seq<XhciDmaRegionRecord>,
    total: int,
    stopped: Option<XhciDmaReleaseFault>,
    end: int,
)
    requires
        0 < left <= records.len(),
        !records[left - 1].phase.holds_nothing(),
        crate::xhci_dma::release_run(records, released, left, log, at) == Some(
            (after, total, stopped, end),
        ),
    ensures
        log[at] is Release,
        log[at]->Release_physical == records[left - 1].physical_start,
        log[at]->Release_page_count == records[left - 1].page_count,
        log[at]->Release_refused is Some ==> end == at + 1 && total == released && stopped is Some,
        log[at]->Release_refused is None ==> crate::xhci_dma::release_run(
            records.update(
                left - 1,
                XhciDmaRegionRecord { phase: XhciDmaRegionPhase::Released, ..records[left - 1] },
            ),
            released + records[left - 1].page_count,
            left - 1,
            log,
            at + 1,
        ) == Some((after, total, stopped, end)),
{
}

/// A released region counts its pages, any other none.
pub proof fn law_released_pages_are_counted(
    records: Seq<XhciDmaRegionRecord>,
    record: XhciDmaRegionRecord,
)
    ensures
        crate::xhci_dma::released_total(records.push(record)) - crate::xhci_dma::released_total(
            records,
        ) == (if record.phase == XhciDmaRegionPhase::Released {
            record.page_count as int
        } else {
            0
        }),
        crate::xhci_dma::released_total(Seq::empty()) == 0,
        record.phase.holds_nothing() <==> record.phase == XhciDmaRegionPhase::Empty || record.phase
            == XhciDmaRegionPhase::Released,
{
    assert(records.push(record).drop_last() =~= records);
}

/// A transfer stays inside its region.
pub proof fn law_transfers_stay_inside_the_region(
    record: XhciDmaRegionRecord,
    offset: usize,
    length: usize,
)
    requires
        record.cpu_start <= record.cpu_end,
    ensures
        crate::xhci_dma::validate_transfer(record, offset, length) is Ok <==> record.cpu_start
            + offset + length <= record.cpu_end,
{
}

/// Bytes go to and come from successive addresses.
pub proof fn law_bytes_lie_side_by_side(cpu_address: int, bytes: Seq<u8>, i: int)
    requires
        0 <= i < bytes.len(),
        0 <= cpu_address,
        cpu_address + bytes.len() <= usize::MAX,
    ensures
        crate::xhci_dma::writes_of(cpu_address, bytes).len() == bytes.len(),
        crate::xhci_dma::writes_of(cpu_address, bytes)[i] is WriteByte,
        crate::xhci_dma::writes_of(cpu_address, bytes)[i]->WriteByte_cpu_address == cpu_address + i,
        crate::xhci_dma::writes_of(cpu_address, bytes)[i]->WriteByte_value == bytes[i],
        crate::xhci_dma::reads_of(cpu_address, bytes).len() == bytes.len(),
        crate::xhci_dma::reads_of(cpu_address, bytes)[i] is ReadByte,
        crate::xhci_dma::reads_of(cpu_address, bytes)[i]->ReadByte_cpu_address == cpu_address + i,
        crate::xhci_dma::reads_of(cpu_address, bytes)[i]->ReadByte_value == bytes[i],
{
}

proof fn lemma_handle_parts(generation: u32, place: u64)
    by (bit_vector)
    requires
        place < 0x1_0000_0000,
    ensures
        ((generation as u64) << 32) | place == generation * 0x1_0000_0000 + place,
{
}

/// A handle is its generation times 2^32 plus the number of its slot, counted
/// from one; neither part of a good handle is zero.
pub proof fn law_a_handle_is_generation_and_slot(slot: usize, generation: u32, handle: u64)
    requires
        slot < 0xffff_ffff,
    ensures
        crate::hermes_dma::encode_handle(slot, generation) == generation * 0x1_0000_0000 + slot + 1,
        crate::hermes_dma::decode_handle(handle) is None <==> handle % 0x1_0000_0000 == 0 || handle
            < 0x1_0000_0000,
        crate::hermes_dma::decode_handle(handle) matches Some((place, of)) ==> of * 0x1_0000_0000
            + place + 1 == handle,
{
    lemma_handle_parts(generation, (slot + 1) as u64);
    crate::bits::lemma_word64(handle);
}

/// An allocation takes as few pages as hold its length.
pub proof fn law_pages_hold_the_length(length: usize)
    requires
        length > 0,
    ensures
        length <= crate::hermes_dma::pages_for(length) * 4096,
        (crate::hermes_dma::pages_for(length) - 1) * 4096 < length,
{
}

/// A frame is seen as far behind the direct map as it lies behind zero, if all of
/// it is mapped.
pub proof fn law_a_frame_is_seen_behind_the_map(base: usize, limit: u64, frame: u64)
    ensures
        crate::hermes_dma::pointer_of(base, limit, frame) matches Some(pointer) ==> pointer - base
            == frame,
        crate::hermes_dma::pointer_of(base, limit, frame) is Some <==> frame + 4096 <= limit && base
            + frame <= usize::MAX,
{
}

/// A page belongs to its allocation by slot, generation and index, and is found
/// so.
pub proof fn law_pages_are_found_by_owner_and_index(
    pages: Seq<PageRecord>,
    slot: int,
    generation: u32,
    page_index: int,
    from: int,
)
    requires
        0 <= from <= pages.len(),
    ensures
        crate::hermes_dma::page_slot_of(pages, slot, generation, page_index, from) matches Some(
            place,
        ) ==> from <= place < pages.len() && pages[place].phase != PagePhase::Empty
            && pages[place].owner_slot == slot + 1 && pages[place].owner_generation == generation
            && pages[place].page_index == page_index,
        crate::hermes_dma::page_slot_of(pages, slot, generation, page_index, from) is None <==>
            forall|i: int|
            from <= i < pages.len() ==> !(#[trigger] pages[i]).belongs(
                slot,
                generation,
                page_index,
            ),
    decreases pages.len() - from,
{
    if from < pages.len() && !pages[from].belongs(slot, generation, page_index) {
        law_pages_are_found_by_owner_and_index(pages, slot, generation, page_index, from + 1);
    }
}

/// Byte `n` of an allocation lies `n % 4096` behind the frame of page `n / 4096`,
/// so that neighbours in one page are neighbours in memory.
pub proof fn law_bytes_of_a_page_are_neighbours(
    base: usize,
    limit: u64,
    pages: Seq<PageRecord>,
    slot: int,
    generation: u32,
    byte: int,
    place: usize,
)
    requires
        0 <= byte,
        crate::hermes_dma::place_at(base, limit, pages, slot, generation, byte) == Some(place),
    ensures
        exists|i: int|
            0 <= i < pages.len() && (#[trigger] pages[i]).belongs(slot, generation, byte / 4096)
                && pages[i].phase == PagePhase::Mapped && place == base + pages[i].frame + byte
                % 4096,
        (byte + 1) % 4096 != 0 ==> (crate::hermes_dma::place_at(
            base,
            limit,
            pages,
            slot,
            generation,
            byte + 1,
        ) matches Some(next) ==> next - place == 1),
{
    law_pages_are_found_by_owner_and_index(pages, slot, generation, byte / 4096, 0);
    let i = crate::hermes_dma::page_slot_of(pages, slot, generation, byte / 4096, 0)->0;
    assert(pages[i].belongs(slot, generation, byte / 4096));
    if (byte + 1) % 4096 != 0 {
        assert((byte + 1) / 4096 == byte / 4096 && (byte + 1) % 4096 == byte % 4096 + 1);
    }
}

/// The first free record or page is taken, and a record at its last generation
/// never again.
pub proof fn law_the_first_free_record_is_taken(
    records: Seq<AllocationRecord>,
    pages: Seq<PageRecord>,
    from: int,
)
    requires
        0 <= from <= records.len(),
    ensures
        crate::hermes_dma::free_record_of(records, from) matches Some(slot) ==> from <= slot
            < records.len() && records[slot].phase == AllocationPhase::Empty
            && records[slot].generation < u32::MAX && forall|i: int|
            from <= i < slot ==> (#[trigger] records[i]).phase != AllocationPhase::Empty
                || records[i].generation == u32::MAX,
    decreases records.len() - from,
{
    if from < records.len() && !(records[from].phase == AllocationPhase::Empty
        && records[from].generation != u32::MAX) {
        law_the_first_free_record_is_taken(records, pages, from + 1);
    }
}

/// Free pages, active and quarantined allocations are counted one by one.
pub proof fn law_pages_and_allocations_are_counted(
    pages: Seq<PageRecord>,
    page: PageRecord,
    records: Seq<AllocationRecord>,
    record: AllocationRecord,
)
    ensures
        crate::hermes_dma::empty_pages_in(pages.push(page)) - crate::hermes_dma::empty_pages_in(
            pages,
        ) == (if page.phase == PagePhase::Empty {
            1int
        } else {
            0
        }),
        crate::hermes_dma::active_in(records.push(record)) - crate::hermes_dma::active_in(records)
            == (if record.phase != AllocationPhase::Empty {
            1int
        } else {
            0
        }),
        crate::hermes_dma::quarantined_in(records.push(record))
            - crate::hermes_dma::quarantined_in(records) == (if record.phase
            == AllocationPhase::Mapping || record.phase == AllocationPhase::ReclaimingMappings {
            1int
        } else {
            0
        }),
        crate::hermes_dma::empty_pages_in(Seq::empty()) == 0,
        crate::hermes_dma::active_in(Seq::empty()) == 0,
        crate::hermes_dma::quarantined_in(Seq::empty()) == 0,
{
    assert(pages.push(page).drop_last() =~= pages);
    assert(records.push(record).drop_last() =~= records);
}

/// The pages of an allocation are bound in order, page `i` at `4096 * i` behind
/// the start, each for reading and writing.
pub proof fn law_pages_are_bound_one_behind_the_other(
    book: DmaBook,
    slot: int,
    domain: u64,
    start: u64,
    generation: u32,
    count: nat,
    page_index: nat,
    log: Seq<FrameEvent>,
    at: int,
    after: DmaBook,
    end: int,
)
    requires
        page_index <= count,
        start + count * 4096 <= u64::MAX,
        crate::hermes_dma::binds_run(
            book,
            slot,
            domain,
            start,
            generation,
            count,
            page_index,
            log,
            at,
        ) == Some((Ok::<(), i32>(()), after, end)),
    ensures
        end == at + count - page_index,
        forall|k: int|
            #![trigger log[k]]
            at <= k < end ==> log[k] is Bind && log[k]->Bind_domain == domain
                && log[k]->Bind_device_address == start + 4096 * (page_index + k - at)
                && log[k]->Bind_length == 4096 && log[k]->Bind_access.read
                && log[k]->Bind_access.write && log[k]->Bind_status == 0,
    decreases count - page_index,
{
    if page_index < count {
        let place = crate::hermes_dma::page_slot_of(
            book.pages,
            slot,
            generation,
            page_index as int,
            0,
        )->0;
        law_pages_are_bound_one_behind_the_other(
            book.with_page(
                place,
                PageRecord { phase: PagePhase::Mapped, ..book.pages[place] },
            ),
            slot,
            domain,
            start,
            generation,
            count,
            page_index + 1,
            log,
            at + 1,
            after,
            end,
        );
    }
}

/// A lease asks for as many pages as its length takes, aligned to as many as its
/// alignment takes, and starts a new generation of its record.
pub proof fn law_a_lease_asks_for_what_it_needs(
    base: usize,
    limit: u64,
    book: DmaBook,
    slot: int,
    domain: u64,
    length: usize,
    alignment: usize,
    log: Seq<FrameEvent>,
    at: int,
    granted: crate::hermes_services::DmaAllocation,
    after: DmaBook,
    end: int,
)
    requires
        length > 0,
        length + 4095 <= usize::MAX,
        crate::hermes_dma::lease_run(base, limit, book, slot, domain, length, alignment, log, at)
            == Some((Ok::<_, i32>(granted), after, end)),
    ensures
        log[at] is Reserve,
        log[at]->Reserve_pages == (length + 4095) / 4096,
        alignment < 4096 ==> log[at]->Reserve_alignment_pages == 1,
        alignment >= 4096 ==> log[at]->Reserve_alignment_pages == alignment / 4096,
        log[at]->Reserve_reply is Some,
        log[at + 1] is Range,
        log[at + 1]->Range_lease == log[at]->Reserve_reply->0,
        log[at + 1]->Range_reply matches Some((start, extent)) && granted.device_address == start
            && extent == (length + 4095) / 4096 * 4096,
{
}

/// A request is served only for a domain, a length and an alignment that is a
/// power of two, and for at most 512 pages.
pub proof fn law_which_requests_are_served(
    base: usize,
    limit: u64,
    book: DmaBook,
    domain: u64,
    length: usize,
    alignment: usize,
    log: Seq<FrameEvent>,
    at: int,
    granted: crate::hermes_services::DmaAllocation,
    after: DmaBook,
    end: int,
)
    requires
        crate::hermes_dma::allocate_run(base, limit, book, domain, length, alignment, log, at)
            == Some((Ok::<_, i32>(granted), after, end)),
    ensures
        domain != 0,
        0 < length <= 512 * 4096,
        crate::hermes_gsp::power_of_two(alignment as nat),
{
}

/// A transfer is refused unless its allocation is mapped and holds all of it.
pub proof fn law_transfers_stay_inside_the_allocation(
    records: Seq<AllocationRecord>,
    allocation: u64,
    offset: usize,
    length: nat,
)
    ensures
        crate::hermes_dma::span_fault(records, allocation, offset, length) is None <==> (
        crate::hermes_dma::record_of(records, allocation) matches Some(slot)
            && records[slot].phase == AllocationPhase::Mapped && offset + length
            <= records[slot].requested_length),
        crate::hermes_dma::record_of(records, allocation) matches Some(slot) ==> 0 <= slot
            < records.len() && records[slot].phase != AllocationPhase::Empty
            && records[slot].generation * 0x1_0000_0000 + slot + 1 == allocation,
{
    law_a_handle_is_generation_and_slot(0, 0, allocation);
}

/// Mapped pages are taken down from the last to the first.
pub proof fn law_pages_are_taken_down_in_reverse(
    book: DmaBook,
    slot: int,
    record: AllocationRecord,
    count: nat,
    log: Seq<FrameEvent>,
    at: int,
    status: i32,
    after: DmaBook,
    end: int,
)
    requires
        count > 0,
        crate::hermes_dma::page_slot_of(
            book.pages,
            slot,
            record.generation,
            count - 1,
            0,
        ) matches Some(place) && book.pages[place].phase == PagePhase::Mapped,
        record.device_address + count * 4096 <= u64::MAX,
        crate::hermes_dma::unbind_run(book, slot, record, count, log, at) == Some(
            (status, after, end),
        ),
    ensures
        log[at] is Unbind,
        log[at]->Unbind_domain == record.domain,
        log[at]->Unbind_device_address == record.device_address + 4096 * (count - 1),
        log[at]->Unbind_length == 4096,
        log[at]->Unbind_status != 0 ==> status == log[at]->Unbind_status && end == at + 1,
{
}

/// A new page is owned by its slot, counted from one, at its index.
pub proof fn law_a_new_page_names_its_owner(
    slot: int,
    generation: u32,
    page_index: int,
    frame: u64,
)
    requires
        0 <= slot < 0xffff,
        0 <= page_index <= 0xffff,
    ensures
        crate::hermes_dma::page_for(slot, generation, page_index, frame).belongs(
            slot,
            generation,
            page_index,
        ),
        crate::hermes_dma::page_for(slot, generation, page_index, frame).frame == frame,
        crate::hermes_dma::page_for(slot, generation, page_index, frame).phase
            == PagePhase::FrameOwned,
{
}

} // verus!
