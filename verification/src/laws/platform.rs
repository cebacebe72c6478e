//! Laws of the leases that a device holds of its kernel.

use vstd::prelude::*;

use crate::drivernet::fingerprint::GpuFingerprint;
use crate::hermes_abi::HermesPciIdentity;
use crate::hermes_platform::AllocatedDma;
use crate::hermes_platform::CleanupReport;
use crate::hermes_platform::DmaRecord;
use crate::hermes_platform::DomainLease;
use crate::hermes_platform::HermesPlatformError;
use crate::hermes_platform::HermesServicePresence;
use crate::hermes_platform::IrqLease;
use crate::hermes_platform::IrqRecord;
use crate::hermes_platform::LeaseBook;
use crate::hermes_platform::MappedBar;
use crate::hermes_platform::MmioLease;
use crate::hermes_platform::DmaLease;
use crate::hermes_gsp::DmaPurpose;
use crate::hermes_services::PlatformEvent;

verus! {

/// A device is the one described only if every field of its identity agrees.
pub proof fn law_an_identity_agrees_in_every_field(
    fingerprint: &GpuFingerprint,
    identity: HermesPciIdentity,
)
    ensures
        crate::hermes_platform::identity_matches(fingerprint, identity) <==> {
            &&& identity.segment == fingerprint.segment
            &&& identity.bus == fingerprint.bus
            &&& identity.slot == fingerprint.slot
            &&& identity.function == fingerprint.function
            &&& identity.revision == fingerprint.revision
            &&& identity.vendor_id == fingerprint.vendor_id
            &&& identity.device_id == fingerprint.device_id
            &&& identity.subsystem_vendor_id == fingerprint.subsystem_vendor_id
            &&& identity.subsystem_device_id == fingerprint.subsystem_device_id
            &&& identity.class_code == fingerprint.class_code
            &&& identity.subclass == fingerprint.subclass
            &&& identity.programming_interface == fingerprint.programming_interface
        },
{
}

/// The address of a memory base register is its two words without the four low
/// bits, the high word counting only where the register is wide.
pub proof fn law_a_base_register_holds_its_address(
    raw_low: u32,
    raw_high: u32,
    flags: u8,
    address: u64,
)
    requires
        crate::hermes_platform::bar_physical_address(raw_low, raw_high, flags) == Ok::<
            _,
            HermesPlatformError,
        >(address),
    ensures
        address == raw_high * 0x1_0000_0000 + raw_low - raw_low % 16,
        address != 0,
        raw_low % 2 == 0,
        raw_low / 2 % 4 == 0 || raw_low / 2 % 4 == 1 ==> raw_high == 0,
        raw_low / 2 % 4 != 3,
        flags & crate::drivernet::fingerprint::BAR_PRESENT != 0,
        flags & crate::drivernet::fingerprint::BAR_IO == 0,
        flags & crate::drivernet::fingerprint::BAR_64BIT != 0 <==> raw_low / 2 % 4 == 2,
{
    assert(raw_low & 0xffff_fff0 == raw_low - raw_low % 16 && raw_low & 1 == raw_low % 2 && (raw_low
        >> 1) & 0x03 == raw_low / 2 % 4) by {
        crate::bits::lemma_word32(raw_low);
    }
    crate::bits::lemma_joined(raw_high, raw_low & 0xffff_fff0);
}

/// A span is served exactly when it is not empty and ends inside.
pub proof fn law_a_span_ends_inside(total: usize, offset: usize, length: usize)
    ensures
        crate::hermes_platform::validate_span(total, offset, length) is Ok <==> 0 < length && offset
            + length <= total,
{
}

/// Each new lease of a slot carries the next generation, until none is left.
pub proof fn law_generations_count_up(current: u32)
    ensures
        crate::hermes_platform::next_generation(current) is Ok <==> current < u32::MAX,
        crate::hermes_platform::next_generation(current) matches Ok(next) ==> next - current == 1,
{
}

/// A lease opens only the record of its own slot, live and of its generation.
pub proof fn law_a_lease_opens_its_own_record(
    book: LeaseBook,
    domain: DomainLease,
    bar: MmioLease,
    dma: DmaLease,
)
    ensures
        book.domain_of(domain) is Ok <==> book.domain.active && book.domain.generation
            == domain.generation,
        book.domain_of(domain) matches Ok(backend) ==> backend == book.domain.backend,
        book.mmio_of(bar) matches Ok(record) ==> bar.slot < book.bars.len() && record
            == book.bars[bar.slot as int] && record.active && record.generation == bar.generation,
        book.dma_of(dma) matches Ok(record) ==> dma.slot < book.dma.len() && record
            == book.dma[dma.slot as int] && record.active && record.generation == dma.generation,
{
}

/// A register lies at its offset behind the mapping, aligned and inside.
pub proof fn law_a_register_lies_at_its_offset(book: LeaseBook, lease: MmioLease, offset: u32)
    ensures
        crate::hermes_platform::register_address(book, lease, offset) matches Ok(address) ==> (
        book.mmio_of(lease) matches Ok(record) && address - record.pointer == offset && offset % 4
            == 0 && offset + 4 <= record.length),
        (book.mmio_of(lease) matches Ok(record) && offset % 4 == 0 && offset + 4 <= record.length
            && record.pointer + offset <= usize::MAX)
            ==> crate::hermes_platform::register_address(book, lease, offset) is Ok,
{
    assert(offset & 3 == offset % 4) by {
        crate::bits::lemma_word32(offset);
    }
}

/// Reading a register is one load and writing one store, at the same place, and
/// neither changes a lease.
pub proof fn law_registers_are_touched_once(
    book: LeaseBook,
    lease: MmioLease,
    offset: u32,
    value: u32,
    log: Seq<PlatformEvent>,
    at: int,
)
    ensures
        crate::hermes_platform::read_run(book, lease, offset, log, at) matches Some(
            (result, after, end),
        ) ==> after == book && (result matches Ok(read) ==> end == at + 1 && log[at] is Load
            && log[at]->Load_value == read && crate::hermes_platform::register_address(
            book,
            lease,
            offset,
        ) == Ok::<_, HermesPlatformError>(log[at]->Load_address)) && (result is Err ==> end == at),
        crate::hermes_platform::write_run(book, lease, offset, value, log, at) matches Some(
            (result, after, end),
        ) ==> after == book && (result is Ok ==> end == at + 1 && log[at] is Store
            && log[at]->Store_value == value && crate::hermes_platform::register_address(
            book,
            lease,
            offset,
        ) == Ok::<_, HermesPlatformError>(log[at]->Store_address)) && (result is Err ==> end
            == at),
{
}

/// A domain is isolated for the device that the fingerprint names, and the lease
/// handed out opens it.
pub proof fn law_a_domain_is_leased_to_its_device(
    fingerprint: GpuFingerprint,
    present: HermesServicePresence,
    book: LeaseBook,
    identity: HermesPciIdentity,
    log: Seq<PlatformEvent>,
    at: int,
    lease: DomainLease,
    after: LeaseBook,
    end: int,
)
    requires
        crate::hermes_platform::acquire_run(fingerprint, present, book, identity, log, at) == Some(
            (Ok::<_, HermesPlatformError>(lease), after, end),
        ),
    ensures
        present.isolation,
        fingerprint.segment == 0,
        !book.domain.active,
        end == at + 1,
        log[at] is Isolate,
        log[at]->Isolate_device.bus == fingerprint.bus,
        log[at]->Isolate_device.slot == fingerprint.slot,
        log[at]->Isolate_device.function == fingerprint.function,
        log[at]->Isolate_reply == Ok::<u64, i32>(after.domain.backend),
        after.domain.backend != 0,
        after.domain_of(lease) is Ok,
        lease.generation - book.domain.generation == 1,
        after.irq == book.irq,
        after.dma == book.dma,
        after.bars == book.bars,
{
}

/// A window is opened at the address and for the length that were measured, and
/// the lease handed out opens it.
pub proof fn law_a_window_is_opened_where_it_was_measured(
    fingerprint: GpuFingerprint,
    present: HermesServicePresence,
    book: LeaseBook,
    domain: DomainLease,
    bar: u8,
    minimum_length: u64,
    log: Seq<PlatformEvent>,
    at: int,
    mapped: MappedBar,
    after: LeaseBook,
    end: int,
)
    requires
        book.bars.len() == 6,
        crate::hermes_platform::map_run(
            fingerprint,
            present,
            book,
            domain,
            bar,
            minimum_length,
            log,
            at,
        ) == Some((Ok::<_, HermesPlatformError>(mapped), after, end)),
    ensures
        present.mmio,
        bar < 6,
        mapped.bar == bar,
        mapped.lease.slot == bar,
        mapped.length == fingerprint.bars[bar as int].length,
        0 < minimum_length <= mapped.length,
        end == at + 1,
        log[at] is Open,
        log[at]->Open_length == mapped.length,
        log[at]->Open_physical_address % mapped.length == 0,
        crate::hermes_platform::bar_physical_address(
            fingerprint.bars[bar as int].raw_low,
            fingerprint.bars[bar as int].raw_high,
            fingerprint.bars[bar as int].flags,
        ) == Ok::<_, HermesPlatformError>(log[at]->Open_physical_address),
        log[at]->Open_reply matches Ok(mapping) && (after.mmio_of(mapped.lease) matches Ok(record)
            && record.backend == mapping.handle && record.pointer == mapping.pointer
            && record.length == mapped.length),
        mapped.lease.generation - book.bars[bar as int].generation == 1,
        after.domain == book.domain,
        after.irq == book.irq,
        after.dma == book.dma,
        forall|i: int| 0 <= i < 6 && i != bar ==> #[trigger] after.bars[i] == book.bars[i],
{
}

/// The first free slot that has a generation left takes the next allocation.
pub proof fn law_the_first_free_slot_is_taken(dma: Seq<DmaRecord>, from: int)
    requires
        0 <= from <= dma.len(),
    ensures
        crate::hermes_platform::free_dma_slot(dma, from) matches Some(slot) ==> from <= slot
            < dma.len() && !dma[slot].active && dma[slot].generation < u32::MAX && forall|i: int|
            from <= i < slot ==> (#[trigger] dma[i]).active || dma[i].generation == u32::MAX,
        crate::hermes_platform::free_dma_slot(dma, from) is None <==> forall|i: int|
            from <= i < dma.len() ==> (#[trigger] dma[i]).active || dma[i].generation == u32::MAX,
    decreases dma.len() - from,
{
    if from < dma.len() && (dma[from].active || dma[from].generation == u32::MAX) {
        law_the_first_free_slot_is_taken(dma, from + 1);
    }
}

/// Memory is leased as it was asked for, at an address of the alignment.
pub proof fn law_memory_is_leased_as_asked(
    present: HermesServicePresence,
    book: LeaseBook,
    domain: DomainLease,
    length: usize,
    alignment: usize,
    purpose: DmaPurpose,
    log: Seq<PlatformEvent>,
    at: int,
    granted: AllocatedDma,
    after: LeaseBook,
    end: int,
)
    requires
        book.dma.len() == 8,
        crate::hermes_platform::allocate_run(
            present,
            book,
            domain,
            length,
            alignment,
            purpose,
            log,
            at,
        ) == Some((Ok::<_, HermesPlatformError>(granted), after, end)),
    ensures
        present.dma,
        length > 0,
        end == at + 2,
        log[at] is Supports,
        log[at]->Supports_purpose == purpose,
        log[at]->Supports_reply,
        log[at + 1] is Allocate,
        log[at + 1]->Allocate_domain == book.domain.backend,
        log[at + 1]->Allocate_length == length,
        log[at + 1]->Allocate_alignment == alignment,
        log[at + 1]->Allocate_purpose == purpose,
        log[at + 1]->Allocate_reply matches Ok(allocation) && allocation.handle != 0
            && granted.device_address == allocation.device_address && (after.dma_of(
            granted.lease,
        ) matches Ok(record) && record.backend == allocation.handle && record.device_address
            == allocation.device_address && record.length == length && record.alignment == alignment
            && record.purpose == purpose),
        granted.length == length,
        granted.alignment == alignment,
        granted.purpose == purpose,
        granted.device_address != 0,
        granted.device_address % (alignment as u64) == 0,
        !book.dma[granted.lease.slot as int].active,
        granted.lease.generation - book.dma[granted.lease.slot as int].generation == 1,
        after.domain == book.domain,
        after.irq == book.irq,
        after.bars == book.bars,
{
    law_the_first_free_slot_is_taken(book.dma, 0);
}

/// Bytes go to and come from the allocation that the lease names, at the offset
/// given and no further than it reaches.
pub proof fn law_bytes_go_to_the_leased_memory(
    present: HermesServicePresence,
    book: LeaseBook,
    lease: DmaLease,
    offset: usize,
    bytes: Seq<u8>,
    seen: Seq<u8>,
    log: Seq<PlatformEvent>,
    at: int,
)
    requires
        bytes.len() <= usize::MAX,
    ensures
        crate::hermes_platform::dma_write_run(
            present,
            book,
            lease,
            offset,
            bytes,
            log,
            at,
        ) matches Some((result, after, end)) ==> after == book && (result is Ok ==> end == at + 1
            && log[at] is Write && log[at]->Write_bytes == bytes && log[at]->Write_offset == offset
            && log[at]->Write_status == 0 && (book.dma_of(lease) matches Ok(record)
            && log[at]->Write_allocation == record.backend && offset + bytes.len()
            <= record.length)),
        crate::hermes_platform::dma_read_run(
            present,
            book,
            lease,
            offset,
            bytes,
            seen,
            log,
            at,
        ) matches Some((result, after, end)) ==> after == book && (result is Ok ==> end == at + 1
            && log[at] is Read && log[at]->Read_bytes == seen && log[at]->Read_offset == offset
            && log[at]->Read_status == 0 && (book.dma_of(lease) matches Ok(record)
            && log[at]->Read_allocation == record.backend && offset + bytes.len()
            <= record.length)),
{
}

/// Publishing and acquiring concern the span given; the first is never taken for
/// the second.
pub proof fn law_spans_are_published_or_acquired(
    present: HermesServicePresence,
    book: LeaseBook,
    lease: DmaLease,
    offset: usize,
    length: usize,
    log: Seq<PlatformEvent>,
    at: int,
)
    ensures
        crate::hermes_platform::visibility_run(
            present,
            book,
            lease,
            offset,
            length,
            true,
            log,
            at,
        ) matches Some((result, after, end)) ==> after == book && (result is Ok ==> end == at + 1
            && log[at] is Publish && log[at]->Publish_offset == offset && log[at]->Publish_length
            == length && log[at]->Publish_status == 0),
        crate::hermes_platform::visibility_run(
            present,
            book,
            lease,
            offset,
            length,
            false,
            log,
            at,
        ) matches Some((result, after, end)) ==> after == book && (result is Ok ==> end == at + 1
            && log[at] is Acquire && log[at]->Acquire_offset == offset && log[at]->Acquire_length
            == length && log[at]->Acquire_status == 0),
{
}

/// An interrupt is registered on the line that was measured and then enabled; if
/// it cannot be enabled it is taken back.
pub proof fn law_an_interrupt_is_registered_and_then_enabled(
    fingerprint: GpuFingerprint,
    present: HermesServicePresence,
    book: LeaseBook,
    domain: DomainLease,
    log: Seq<PlatformEvent>,
    at: int,
    result: Result<IrqLease, HermesPlatformError>,
    after: LeaseBook,
    end: int,
)
    requires
        crate::hermes_platform::register_run(fingerprint, present, book, domain, log, at) == Some(
            (result, after, end),
        ),
    ensures
        result matches Ok(lease) ==> end == at + 2 && log[at] is Register && log[at]->Register_line
            == fingerprint.interrupt_line && log[at]->Register_reply == Ok::<u64, i32>(
            after.irq.backend,
        ) && log[at + 1] is Enable && log[at + 1]->Enable_interrupt == after.irq.backend && log[at
            + 1]->Enable_enabled && log[at + 1]->Enable_status == 0 && after.irq.active
            && after.irq.enabled && after.irq.generation == lease.generation && lease.generation
            - book.irq.generation == 1 && !book.irq.active && fingerprint.interrupt_pin != 0
            && fingerprint.interrupt_line != 255,
        end == at + 3 ==> log[at + 2] is Unregister && log[at + 1] is Enable && log[at
            + 1]->Enable_interrupt == log[at + 2]->Unregister_interrupt && (after.irq.active
            <==> log[at + 2]->Unregister_status != 0) && result is Err && !after.irq.enabled,
        after.domain == book.domain,
        after.dma == book.dma,
        after.bars == book.bars,
{
}

/// A live interrupt is disabled before it is removed, and removed only once it is
/// disabled.
pub proof fn law_an_interrupt_is_disabled_before_it_is_removed(
    irq: IrqRecord,
    log: Seq<PlatformEvent>,
    at: int,
    status: i32,
    after: IrqRecord,
    end: int,
)
    requires
        irq.enabled,
        crate::hermes_platform::removal_run(irq, log, at) == Some((status, after, end)),
    ensures
        log[at] is Enable,
        !log[at]->Enable_enabled,
        log[at]->Enable_interrupt == irq.backend,
        log[at]->Enable_status != 0 ==> end == at + 1 && status == log[at]->Enable_status && after
            == irq,
        log[at]->Enable_status == 0 ==> end == at + 2 && log[at + 1] is Unregister && log[at
            + 1]->Unregister_interrupt == irq.backend && status == log[at + 1]->Unregister_status
            && !after.enabled,
        after.backend == irq.backend,
        after.generation == irq.generation,
        after.active == irq.active,
{
}

/// Revoking gives back the backend's own handle and closes the lease for good,
/// leaving every other lease.
pub proof fn law_revoking_gives_back_the_handle(
    present: HermesServicePresence,
    book: LeaseBook,
    bar: MmioLease,
    dma: DmaLease,
    log: Seq<PlatformEvent>,
    at: int,
)
    ensures
        crate::hermes_platform::revoke_bar_run(present, book, bar, log, at) matches Some(
            (result, after, end),
        ) ==> after.domain == book.domain && after.irq == book.irq && after.dma == book.dma && (
        result is Err ==> after == book) && (result is Ok ==> end == at + 1 && log[at] is Close
            && log[at]->Close_mapping == book.bars[bar.slot as int].backend
            && log[at]->Close_status == 0 && after.mmio_of(bar) is Err
            && after.bars[bar.slot as int].generation == bar.generation),
        crate::hermes_platform::revoke_dma_run(present, book, dma, log, at) matches Some(
            (result, after, end),
        ) ==> after.domain == book.domain && after.irq == book.irq && after.bars == book.bars && (
        result is Err ==> after == book) && (result is Ok ==> end == at + 1 && log[at] is Release
            && log[at]->Release_domain == book.domain.backend && log[at]->Release_allocation
            == book.dma[dma.slot as int].backend && log[at]->Release_status == 0 && after.dma_of(
            dma,
        ) is Err && after.dma[dma.slot as int].generation == dma.generation),
{
}

/// A report keeps the first bad status, and is complete when it names nothing.
pub proof fn law_a_report_keeps_the_first_status(report: CleanupReport, first: i32, second: i32)
    requires
        first != 0,
    ensures
        CleanupReport::empty().with_status(first).with_status(second).first_status == first,
        CleanupReport::empty().with_status(first).pending_bars == 0,
        CleanupReport::empty().complete(),
        report.complete() ==> !report.pending_irq && !report.pending_domain && report.pending_dma
            == 0 && report.pending_bars == 0,
        report.with_status(first).pending_dma == report.pending_dma,
        report.with_status(first).pending_irq == report.pending_irq,
        report.with_status(first).pending_domain == report.pending_domain,
        crate::hermes_platform::settled(0) is Ok,
        crate::hermes_platform::settled(first) == Err::<(), _>(HermesPlatformError::Backend(first)),
{
}

/// The domain is given back only after everything in it.
pub proof fn law_the_domain_is_given_back_last(
    present: HermesServicePresence,
    book: LeaseBook,
    report: CleanupReport,
    log: Seq<PlatformEvent>,
    at: int,
    result: Result<(), CleanupReport>,
    after: LeaseBook,
    end: int,
)
    requires
        crate::hermes_platform::domain_cleanup_run(present, book, report, log, at) == Some(
            (result, after, end),
        ),
    ensures
        report.pending_irq || report.pending_dma != 0 || report.pending_bars != 0 ==> end == at
            && result is Err && after == book,
        end > at ==> end == at + 1 && log[at] is ReleaseDomain && log[at]->ReleaseDomain_domain
            == book.domain.backend && (result is Ok <==> log[at]->ReleaseDomain_status == 0),
        result is Ok ==> !after.domain.active && after.domain.generation == book.domain.generation,
        result matches Err(left) ==> left.pending_domain && after == book,
        after.irq == book.irq,
        after.dma == book.dma,
        after.bars == book.bars,
{
}

/// What the kernel offers is what is present and what the device was measured to
/// have.
pub proof fn law_services_are_what_is_present(
    fingerprint: GpuFingerprint,
    present: HermesServicePresence,
    log: Seq<PlatformEvent>,
    at: int,
)
    ensures
        crate::hermes_platform::services_run(fingerprint, present, log, at) matches Some(
            (services, end),
        ) ==> {
            &&& services.isolation == present.isolation
            &&& services.irq <==> present.isolation && present.irq && fingerprint.interrupt_pin != 0
                && fingerprint.interrupt_line != 255
            &&& services.mmio ==> present.isolation && present.mmio
            &&& services.dma ==> present.isolation && present.dma && log[at] is Supports
                && log[at]->Supports_purpose == DmaPurpose::CommandRing && log[at]->Supports_reply
                && log[at + 1] is Supports && log[at + 1]->Supports_purpose == DmaPurpose::EventRing
                && log[at + 1]->Supports_reply
            &&& services.firmware_dma ==> services.dma && log[at + 2] is Supports && log[at
                + 2]->Supports_purpose == DmaPurpose::Firmware && log[at + 2]->Supports_reply
            &&& !present.isolation ==> !services.mmio && !services.dma && !services.irq
                && !services.firmware_dma && end == at
        },
{
}

} // verus!
