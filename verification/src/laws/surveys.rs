//! Laws of surveys: which functions are read, what is made of them, and how the
//! fallback drivers answer.

use vstd::prelude::*;

use crate::device_census::BindingClaim;
use crate::device_census::CensusError;
use crate::device_census::DeviceState;
use crate::device_census::DriverBindingManifest;
use crate::device_census::RetainedDeviceRecord;
use crate::drivernet::blacklab_observer::BlackLabDriverObserver;
use crate::drivernet::blacklab_observer::EventLedger;
use crate::drivernet::blacklab_observer::TemporalMesh;
use crate::drivernet::brokers::FirmwareFramebufferBroker;
use crate::drivernet::brokers::FirmwareFramebufferHost;
use crate::drivernet::brokers::QuarantineBroker;
use crate::drivernet::configuration::ConfigurationEvent;
use crate::drivernet::dispatch::BackendEvent;
use crate::drivernet::dispatch::BackendFault;
use crate::drivernet::dispatch::Candidacy;
use crate::drivernet::dispatch::FaultCode;
use crate::drivernet::dispatch::ProbeObservation;
use crate::drivernet::dispatch::ProbeTransaction;
use crate::drivernet::ecam::EcamAccess;
use crate::drivernet::ecam::EcamConfigurationReader;
use crate::drivernet::fingerprint::FingerprintError;
use crate::drivernet::fingerprint::FingerprintSummary;
use crate::drivernet::fingerprint::FirmwareFramebufferEvidence;
use crate::drivernet::fingerprint::GpuFingerprint;
use crate::drivernet::fingerprint::PciFunctionAddress;
use crate::drivernet::fingerprint::TopologyEvidence;
use crate::drivernet::fingerprint::TopologyEvidenceProvider;
use crate::drivernet::inventory::InventoryError;
use crate::drivernet::inventory::InventoryModel;
use crate::drivernet::inventory::PciBusRange;
use crate::drivernet::inventory::PciFunctionRecord;
use crate::drivernet::model::DriverStrategy;
use crate::drivernet::platform::BrokerTransaction;
use crate::drivernet::platform::PlatformEvent;
use crate::drivernet::registry::ProbeSemantic;
use crate::drivernet::registry::ProbeStep;
use crate::drivernet::registry::RegistryError;
use crate::drivernet::registry::ShimDescriptor;
use crate::drivernet::registry::ShimRegistry;
use crate::drivernet::telemetry::DriverNetEvent;
use crate::firmware_display::FirmwareBootSignatureReport;
use crate::firmware_display::FirmwareDisplayError;
use crate::firmware_display::FirmwareDisplaySnapshot;
use crate::firmware_display::PixelEvent;
use crate::hermes_abi::HermesBootInstruction;
use crate::hermes_abi::HermesTransportProfile;
use crate::hermes_gsp::HermesFault;
use crate::hermes_gsp::HermesPlatform;
use crate::hermes_platform::HermesPlatformError;
use crate::hermes_platform::HermesServicePresence;
use crate::hermes_platform::IrqLease;
use crate::hermes_platform::LeaseBook;
use crate::hermes_trace::HermesEvent;
use crate::pci::PciDevice;
use crate::xhci_dma::IdentityDmaWindow;
use crate::xhci_dma::XhciDmaArena;
use crate::xhci_dma::XhciDmaError;
use crate::xhci_dma::XhciDmaPurpose;
use crate::xhci_dma::XhciDmaRegionPhase;
use crate::xhci_dma::XhciDmaRegionRecord;
use crate::xhci_dma::XhciDmaRegionToken;
use crate::xhci_iommu::XhciIommuBindingError;
use crate::xhci_iommu::XhciRingStorage;

verus! {

/// Every slot of a bus from the given one on is read, beginning with its first
/// function.
pub proof fn law_every_slot_is_read(
    model: InventoryModel,
    capacity: int,
    segment: u16,
    bus: u8,
    slot: int,
    log: Seq<ConfigurationEvent>,
    at: int,
    wanted: u8,
)
    requires
        0 <= slot <= wanted < 32,
        crate::drivernet::inventory::slots_read(
            model,
            capacity,
            segment,
            bus,
            slot,
            log,
            at,
        ) is Some,
    ensures
        exists|before: InventoryModel, from: int|
            #![trigger crate::drivernet::inventory::functions_read(
                before,
                capacity,
                segment,
                bus,
                wanted,
                0,
                log,
                from,
            )]
            crate::drivernet::inventory::functions_read(
                before,
                capacity,
                segment,
                bus,
                wanted,
                0,
                log,
                from,
            ) is Some,
    decreases 32 - slot,
{
    let read = crate::drivernet::inventory::functions_read(
        model,
        capacity,
        segment,
        bus,
        slot as u8,
        0,
        log,
        at,
    );
    if slot < wanted {
        let (next, end) = read->0;
        law_every_slot_is_read(next, capacity, segment, bus, slot + 1, log, end, wanted);
    }
}

/// Every bus of a range is read, beginning with its first slot.
pub proof fn law_every_bus_is_read(
    model: InventoryModel,
    capacity: int,
    range: PciBusRange,
    bus: int,
    log: Seq<ConfigurationEvent>,
    at: int,
    wanted: u8,
)
    requires
        0 <= bus <= wanted <= range.bus_end,
        crate::drivernet::inventory::buses_read(model, capacity, range, bus, log, at) is Some,
    ensures
        exists|before: InventoryModel, from: int|
            #![trigger crate::drivernet::inventory::slots_read(
                before,
                capacity,
                range.segment,
                wanted,
                0,
                log,
                from,
            )]
            crate::drivernet::inventory::slots_read(
                before,
                capacity,
                range.segment,
                wanted,
                0,
                log,
                from,
            ) is Some,
    decreases range.bus_end + 1 - bus,
{
    let read = crate::drivernet::inventory::slots_read(
        model,
        capacity,
        range.segment,
        bus as u8,
        0,
        log,
        at,
    );
    if bus < wanted {
        let (next, end) = read->0;
        law_every_bus_is_read(next, capacity, range, bus + 1, log, end, wanted);
    }
}

/// A survey succeeds only if every range is valid, and each is read from its first
/// bus.
pub proof fn law_only_valid_ranges_are_read(
    model: InventoryModel,
    capacity: int,
    ranges: Seq<PciBusRange>,
    index: int,
    log: Seq<ConfigurationEvent>,
    at: int,
    result: Result<(), InventoryError>,
    after: InventoryModel,
    end: int,
    wanted: int,
)
    requires
        0 <= index <= wanted < ranges.len(),
        crate::drivernet::inventory::ranges_read(model, capacity, ranges, index, log, at) == Some(
            (result, after, end),
        ),
    ensures
        result is Ok ==> ranges[wanted].valid(),
        result is Ok ==> exists|before: InventoryModel, from: int|
            #![trigger crate::drivernet::inventory::buses_read(
                before,
                capacity,
                ranges[wanted],
                ranges[wanted].bus_start as int,
                log,
                from,
            )]
            crate::drivernet::inventory::buses_read(
                before,
                capacity,
                ranges[wanted],
                ranges[wanted].bus_start as int,
                log,
                from,
            ) is Some,
        result matches Err(error) ==> error == InventoryError::InvalidRange && exists|i: int|
            index <= i < ranges.len() && !(#[trigger] ranges[i]).valid(),
    decreases ranges.len() - index,
{
    if ranges[index].valid() {
        let read = crate::drivernet::inventory::buses_read(
            model,
            capacity,
            ranges[index],
            ranges[index].bus_start as int,
            log,
            at,
        );
        let (next, then) = read->0;
        if index + 1 < ranges.len() {
            law_only_valid_ranges_are_read(
                next,
                capacity,
                ranges,
                index + 1,
                log,
                then,
                result,
                after,
                end,
                if index < wanted {
                    wanted
                } else {
                    index + 1
                },
            );
        }
    }
}

/// A scan refuses a device at an address that an earlier one has, and otherwise
/// keeps each at its own, detected and of the first generation.
pub proof fn law_a_scan_keeps_each_device_once(
    devices: Seq<PciDevice>,
    dmar: Option<&crate::device_census::DmarInfo>,
    secret: u64,
    at: int,
    earlier: int,
)
    requires
        0 <= earlier < at < devices.len(),
    ensures
        devices[earlier].address == devices[at].address ==> crate::device_census::scan_fault(
            devices,
            dmar,
            secret,
            at,
        ) == Some(CensusError::DuplicateAddress),
        ({
            let slot = crate::device_census::scanned_slot(devices, dmar, secret, at);
            &&& slot.evidence.address.segment == 0
            &&& slot.evidence.address.bus == devices[at].address.bus
            &&& slot.evidence.address.slot == devices[at].address.slot
            &&& slot.evidence.address.function == devices[at].address.function
            &&& slot.evidence.vendor_id == devices[at].vendor_id
            &&& slot.evidence.device_id == devices[at].device_id
            &&& slot.generation == 1
            &&& slot.driver_id == 0
            &&& slot.authority == 0
        }),
{
    if devices[earlier].address == devices[at].address {
        assert(crate::device_census::device_address(devices[earlier])
            == crate::device_census::device_address(devices[at]));
    }
}

/// A measured inventory has room, places every function where its topology says,
/// and stands behind what was there.
pub proof fn law_an_inventory_needs_room<T: TopologyEvidenceProvider>(
    model: InventoryModel,
    topology: &T,
    secret: u64,
    before: Seq<GpuFingerprint>,
    after: Seq<GpuFingerprint>,
    start: Seq<ConfigurationEvent>,
    log: Seq<ConfigurationEvent>,
    result: Result<FingerprintSummary, FingerprintError>,
)
    requires
        crate::drivernet::fingerprint::inventory_outcome(
            model,
            topology,
            secret,
            before,
            after,
            start,
            log,
            result,
        ),
    ensures
        before.len() == 0 ==> result == Err::<FingerprintSummary, _>(
            FingerprintError::OutputCapacity,
        ) && after == before && log == start,
        result == Err::<FingerprintSummary, _>(FingerprintError::OutputCapacity) ==> before.len()
            == 0,
        result matches Err(error) ==> error == FingerprintError::OutputCapacity || error
            == FingerprintError::InvalidHeader,
        result matches Ok(summary) ==> forall|i: int|
            summary.length <= i < before.len() ==> #[trigger] after[i] == before[i],
{
    reveal(crate::drivernet::fingerprint::inventory_outcome);
}

/// A topology belongs to a function of its segment; one that names none fits all.
pub proof fn law_topology_belongs_to_its_segment(
    function: PciFunctionRecord,
    topology: TopologyEvidence,
)
    ensures
        topology.segment == 0 ==> crate::drivernet::fingerprint::segment_agrees(function, topology),
        topology.segment != 0 ==> (crate::drivernet::fingerprint::segment_agrees(function, topology)
            <==> topology.segment == function.address.segment),
{
}

/// An entry made for the firmware's display alone stands for no device.
pub proof fn law_a_synthetic_entry_is_no_device(
    print: GpuFingerprint,
    secret: u64,
    firmware: FirmwareFramebufferEvidence,
    incomplete: bool,
    i: int,
)
    requires
        0 <= i < 6,
        crate::drivernet::fingerprint::is_synthetic(print, secret, firmware, incomplete),
    ensures
        print.vendor_id == 0xffff,
        print.device_id == 0xffff,
        print.segment == 0 && print.bus == 0 && print.slot == 0 && print.function == 0,
        print.class_code == 0,
        print.capability_flags == 0,
        print.interrupt_pin == 0,
        print.firmware_framebuffer == firmware,
        print.topology_flags == crate::drivernet::fingerprint::synthetic_topology_flags(incomplete),
{
}

/// The firmware's driver opens what was inspected: the object becomes the token,
/// and the state remembers the surface.
pub proof fn law_an_inspected_object_is_the_token(
    fingerprint: &GpuFingerprint,
    object: u64,
    root: u64,
)
    ensures
        crate::drivernet::brokers::inspected_transaction(
            fingerprint,
            Ok::<(u64, u64), BackendFault>((object, root)),
        ) is Ok <==> object != 0 && root != 0,
        crate::drivernet::brokers::inspected_transaction(
            fingerprint,
            Ok::<(u64, u64), BackendFault>((object, root)),
        ) matches Ok(opened) ==> opened.token == object && opened.root == root && opened.state[0]
            == object && opened.state[1] == fingerprint.firmware_framebuffer.byte_length
            && opened.state[2] == fingerprint.firmware_framebuffer.width && opened.state[3]
            == fingerprint.firmware_framebuffer.height,
{
}

/// The firmware's driver gives evidence of its lease and its health and of nothing
/// else, and keeps only the object it asked for.
pub proof fn law_the_firmware_driver_answers_for_its_object(
    transaction: BrokerTransaction,
    fingerprint: GpuFingerprint,
    semantic: ProbeSemantic,
    evidence_bit: u32,
    tick: u64,
    object: u64,
    kept: (u64, u32),
)
    ensures
        crate::drivernet::brokers::firmware_evidence(ProbeSemantic::VerifyFirmwareLease) == Some(
            crate::drivernet::registry::PROBE_EVIDENCE_FIRMWARE_LEASE,
        ),
        crate::drivernet::brokers::firmware_evidence(ProbeSemantic::EstablishHealthBaseline)
            == Some(crate::drivernet::registry::PROBE_EVIDENCE_HEALTH),
        crate::drivernet::brokers::firmware_evidence(semantic) is None <==> semantic
            != ProbeSemantic::VerifyFirmwareLease && semantic
            != ProbeSemantic::EstablishHealthBaseline,
        ({
            let (after, result) = crate::drivernet::brokers::firmware_observation(
                transaction,
                fingerprint,
                semantic,
                evidence_bit,
                tick,
            );
            &&& after.token == transaction.token
            &&& after.state == transaction.state
            &&& result matches Ok(seen) && seen.semantic == semantic && seen.evidence_bit
                == evidence_bit && seen.value == transaction.token && seen.tick == tick && seen.root
                == after.root
        }),
        crate::drivernet::brokers::retained_object(object, Ok::<(u64, u32), BackendFault>(kept))
            is Ok <==> kept.0 == object,
        crate::drivernet::brokers::retained_object(
            object,
            Ok::<(u64, u32), BackendFault>(kept),
        ) matches Ok(given) ==> given == kept,
{
}

/// The quarantine touches nothing: it activates without a surface, is always
/// healthy, and everything it opened it can undo.
pub proof fn law_the_quarantine_touches_nothing(
    broker: QuarantineBroker,
    after: QuarantineBroker,
    event: PlatformEvent,
)
    requires
        broker.acts(after, event),
    ensures
        after.secret == broker.secret,
        event is Begin ==> (event->Begin_reply matches Ok(opened) && opened.token != 0),
        event is Probe ==> (event->Probe_reply.1 is Ok <==> event->step.semantic
            == ProbeSemantic::EstablishHealthBaseline),
        event is Activate ==> (event->Activate_reply.1 matches Ok(receipt)
            && receipt.framebuffer_object == 0 && receipt.strategy == DriverStrategy::Quarantine
            && receipt.token == event->Activate_transaction.token),
        event is Health ==> (event->Health_reply.1 matches Ok(receipt) && receipt.healthy
            && receipt.fault_mask == 0),
        event is Rollback ==> event->Rollback_reply.1 is Ok,
{
}

/// A signature is drawn on the top of the display that is held, through one window
/// that is closed again.
pub proof fn law_a_signature_closes_its_window(
    found: Option<FirmwareDisplaySnapshot>,
    object: u64,
    log: Seq<PixelEvent>,
    at: int,
    result: Result<FirmwareBootSignatureReport, FirmwareDisplayError>,
    end: int,
)
    requires
        crate::firmware_display::signature_run(found, object, log, at) == Some((result, end)),
    ensures
        found is None ==> result == Err::<FirmwareBootSignatureReport, _>(
            FirmwareDisplayError::NotFound,
        ) && end == at,
        found matches Some(snapshot) ==> snapshot.retain_count == 0 ==> result == Err::<
            FirmwareBootSignatureReport,
            _,
        >(FirmwareDisplayError::StaleObject) && end == at,
        result matches Ok(report) ==> (found matches Some(snapshot) && report.object == object
            && report.generation == snapshot.generation && report.stripe_height
            == crate::firmware_display::stripe_of(snapshot.evidence) && report.stripe_height > 0
            && log[at] is Open && log[end - 1] is Close && log[end - 1]->Close_0 == 0),
{
}

/// An interrupt is revoked by its own lease only, and is gone once it is removed.
pub proof fn law_an_interrupt_is_revoked_by_its_lease(
    present: HermesServicePresence,
    book: LeaseBook,
    lease: IrqLease,
    log: Seq<crate::hermes_services::PlatformEvent>,
    at: int,
    result: Result<(), HermesPlatformError>,
    after: LeaseBook,
    end: int,
)
    requires
        crate::hermes_platform::revoke_irq_run(present, book, lease, log, at) == Some(
            (result, after, end),
        ),
    ensures
        !present.irq ==> result == Err::<(), _>(HermesPlatformError::MissingIrqService) && after
            == book && end == at,
        present.irq && (!book.irq.active || book.irq.generation != lease.generation) ==> result
            == Err::<(), _>(HermesPlatformError::StaleLease) && after == book && end == at,
        result is Ok ==> !after.irq.active && after.irq.generation == lease.generation && log[end
            - 1] is Unregister && log[end - 1]->Unregister_interrupt == book.irq.backend && log[end
            - 1]->Unregister_status == 0,
        after.domain == book.domain,
        after.dma == book.dma,
        after.bars == book.bars,
{
}

/// What is bound is every region that the storage holds, in the order of their
/// numbers, ready and of the generation asked for.
pub proof fn law_bound_regions_are_the_storage_of_the_rings<S: XhciRingStorage>(
    storage: &S,
    generation: u32,
    regions: Seq<Option<XhciDmaRegionRecord>>,
)
    requires
        crate::xhci_iommu::regions_of(storage, generation) == Ok::<_, XhciIommuBindingError>(
            regions,
        ),
    ensures
        regions.len() == 6,
        regions[0] == storage.region_of(XhciDmaPurpose::Dcbaa),
        regions[1] == storage.region_of(XhciDmaPurpose::CommandRing),
        regions[2] == storage.region_of(XhciDmaPurpose::EventRing),
        regions[3] == storage.region_of(XhciDmaPurpose::EventRingSegmentTable),
        regions[4] == storage.region_of(XhciDmaPurpose::ScratchpadPointerArray),
        regions[5] == storage.region_of(XhciDmaPurpose::ScratchpadBuffers),
        regions[0] is Some && regions[1] is Some && regions[2] is Some && regions[3] is Some,
        regions[4] is Some <==> regions[5] is Some,
        forall|i: int|
            0 <= i < 6 && (#[trigger] regions[i]) is Some ==> regions[i]->0.generation == generation
                && regions[i]->0.phase == XhciDmaRegionPhase::Ready && regions[i]->0.page_count > 0,
{
}

/// A missing ring is named, and nothing is bound without a generation and a
/// secret.
pub proof fn law_what_a_binding_lacks_is_named<S: XhciRingStorage>(
    storage: &S,
    generation: u32,
    secret: u64,
)
    ensures
        crate::xhci_iommu::bind_fault(storage, 0, secret) == Some(
            XhciIommuBindingError::InvalidGeneration,
        ),
        generation != 0 ==> crate::xhci_iommu::bind_fault(storage, generation, 0) == Some(
            XhciIommuBindingError::InvalidSecret,
        ),
        generation != 0 && secret != 0 && storage.region_of(XhciDmaPurpose::Dcbaa) is None
            ==> crate::xhci_iommu::bind_fault(storage, generation, secret) == Some(
            XhciIommuBindingError::MissingRegion(XhciDmaPurpose::Dcbaa),
        ),
        crate::xhci_iommu::bind_fault(storage, generation, secret) is None ==> generation != 0
            && secret != 0 && crate::xhci_iommu::regions_of(storage, generation) is Ok,
{
}

/// A register fits its window exactly when its four bytes end inside.
pub proof fn law_which_registers_fit(profile: &HermesTransportProfile, bar: u8, offset: u32)
    ensures
        crate::hermes_gsp::register_in_range(profile, bar, offset) <==> offset + 4
            <= profile.required_bar_lengths[bar as int],
{
}

/// Every driver of a vendor wants a display function of any revision with at least
/// a page behind its first base register, and keeps the boot surface.
pub proof fn law_drivers_want_a_display_function(strategy: DriverStrategy)
    requires
        strategy != DriverStrategy::Quarantine,
        strategy != DriverStrategy::FirmwareFramebuffer,
    ensures
        crate::gpu_portability::manifest_for(strategy) matches Some(manifest) && {
            &&& manifest.class_mask == 0xff
            &&& manifest.class_value == 3
            &&& manifest.device_id_mask == 0
            &&& manifest.subclass_mask == 0
            &&& manifest.architecture_mask == 0
            &&& manifest.revision_minimum == 0
            &&& manifest.revision_maximum == 0xff
            &&& manifest.required_bar_mask == 1
            &&& manifest.minimum_bar_lengths[0] == 4096
            &&& manifest.forbidden_topology == 0
            &&& manifest.required_features == 0
            &&& manifest.firmware_policy == crate::gpu_abi::GPU_FIRMWARE_PRESERVE_BOOT_SURFACE
        },
{
}

/// A claim that was made on a claimed slot is live there.
pub proof fn law_a_claim_is_live_on_its_slot(
    claim: BindingClaim,
    secret: u64,
    manifest: DriverBindingManifest,
    slots: Seq<RetainedDeviceRecord>,
    at: int,
)
    requires
        0 <= at < slots.len() <= 0x1_0000,
        crate::device_census::is_claim_on(claim, secret, manifest, slots, at),
        slots[at].state == DeviceState::Claimed,
        slots[at].driver_id == manifest.driver_id,
        slots[at].authority == manifest.requested_authority,
        claim.root_of() != 0,
    ensures
        crate::device_census::live_fault(secret, slots, claim) is None,
{
}

/// The firmware's driver acts on the object it was given and on no other: it is
/// activated and healthy with it, keeps it on commit and lets it go on rollback.
pub proof fn law_the_firmware_driver_acts_on_its_object<H: FirmwareFramebufferHost>(
    broker: FirmwareFramebufferBroker<H>,
    after: FirmwareFramebufferBroker<H>,
    event: PlatformEvent,
)
    requires
        broker.acts(after, event),
    ensures
        event is Begin && !event->Begin_fingerprint.firmware_display_usable() ==> after.host
            == broker.host && event->Begin_reply is Err,
        event is Activate ==> (event->Activate_reply.1 matches Ok(receipt)
            && receipt.framebuffer_object == event->Activate_transaction.token && receipt.token
            == event->Activate_transaction.token && receipt.strategy
            == DriverStrategy::FirmwareFramebuffer && receipt.activation_epoch > 0
            && receipt.backend_state == event->Activate_transaction.state),
        event is Health ==> (event->Health_reply.1 matches Ok(receipt) && (receipt.healthy
            <==> event->Health_activation.framebuffer_object != 0) && receipt.fault_mask == 0
            && receipt.heartbeat == event->Health_activation.activation_epoch),
        event is Commit ==> after.host.history().len() == broker.host.history().len() + 1
            && after.host.history().last() is Retain && after.host.history().last()->Retain_object
            == event->Commit_activation.framebuffer_object && (
        event->Commit_reply.1 matches Ok(kept) ==> kept.0
            == event->Commit_activation.framebuffer_object),
        event is Rollback ==> after.host.history().last() is Release
            && after.host.history().last()->Release_object == event->Rollback_transaction.token
            && after.host.history().last()->Release_reply == event->Rollback_reply.1,
{
}

/// The registry of the lab holds the two drivers it was given, for the two
/// strategies that are free, between its own.
pub proof fn law_the_lab_registers_both_drivers(
    hermes: ShimDescriptor,
    intel: ShimDescriptor,
    result: Result<ShimRegistry, RegistryError>,
)
    requires
        crate::drivernet::registry::black_lab_result(hermes, intel, result),
    ensures
        result matches Ok(registry) ==> hermes.strategy != intel.strategy && registry@[0] == hermes
            && registry@[2] == intel && registry@[1].strategy == DriverStrategy::AmdDisplay
            && registry@[3].strategy == DriverStrategy::VirtioGpu && registry@[4].strategy
            == DriverStrategy::VirtualSvga && registry@[5].strategy
            == DriverStrategy::FirmwareFramebuffer && registry@[6].strategy
            == DriverStrategy::Quarantine,
        hermes.abi_version == 0 || intel.abi_version == 0 ==> result == Err::<ShimRegistry, _>(
            RegistryError::InvalidDescriptor,
        ),
        hermes.well_described() && intel.well_described() && hermes.strategy == intel.strategy
            ==> result == Err::<ShimRegistry, _>(RegistryError::DuplicateStrategy),
{
}

/// A token opens the region of its purpose while the arena is of its generation.
pub proof fn law_a_token_opens_its_own_region(arena: &XhciDmaArena, token: XhciDmaRegionToken)
    ensures
        token.generation != arena.identity.generation ==> arena.region_of(token) == Err::<
            XhciDmaRegionRecord,
            _,
        >(XhciDmaError::StaleRegionToken),
        arena.region_of(token) matches Ok(record) ==> token.generation == arena.identity.generation
            && record.purpose == token.purpose && (record.phase == XhciDmaRegionPhase::Zeroed
            || record.phase == XhciDmaRegionPhase::Ready),
{
    crate::laws::memory::law_a_region_is_found_by_its_purpose(arena.records@, token.purpose, 0);
}

/// A receipt names the device and generation that gave back, and how many pages.
pub proof fn law_a_receipt_names_what_was_given_back(
    window: IdentityDmaWindow,
    arena_root: u64,
    released_pages: usize,
)
    ensures
        ({
            let receipt = crate::xhci_dma::receipt_of(window, arena_root, released_pages);
            &&& receipt.device == window.device
            &&& receipt.generation == window.generation
            &&& receipt.released_pages == released_pages
        }),
{
}

/// An address that no window covers is of an unsupported segment.
pub proof fn law_uncovered_addresses_are_unsupported<const N: usize, A: EcamAccess>(
    reader: &EcamConfigurationReader<N, A>,
    address: PciFunctionAddress,
    offset: u16,
    selection: Result<u64, FingerprintError>,
)
    requires
        reader.selects(address, offset, selection),
        forall|i: int| 0 <= i < reader@.len() ==> !(#[trigger] reader@[i]).contains(address),
    ensures
        selection == Err::<u64, _>(FingerprintError::UnsupportedPciSegment),
{
}

/// A profile is sound exactly if it is whole, for its personality, of a family and
/// version, names windows that exist, and bounds its steps and its wire.
pub proof fn law_which_profiles_are_sound(personality_id: u64, profile: &HermesTransportProfile)
    ensures
        crate::hermes_gsp::profile_in_range(personality_id, profile) <==> {
            &&& profile.personality_id == personality_id
            &&& profile.struct_size >= 192
            &&& profile.profile_version > 0
            &&& profile.protocol_family > 0
            &&& profile.wire_major > 0
            &&& profile.wire_minor_maximum >= profile.wire_minor_minimum
            &&& profile.control_bar <= 5
            &&& profile.doorbell_bar <= 5
            &&& 1 <= profile.maximum_boot_steps <= 256
            &&& 1 <= profile.maximum_wire_bytes <= 4096
        },
        crate::hermes_gsp::curve_in_range(profile) <==> {
            &&& profile.minimum_completions_per_window >= 1
            &&& profile.maximum_admissions_per_window >= 1
            &&& profile.maximum_admission_backlog >= profile.minimum_completions_per_window
            &&& profile.maximum_admission_backlog >= profile.maximum_admissions_per_window
            &&& profile.command_depth > profile.maximum_admission_backlog
            &&& profile.service_window_ticks > 0
        },
        crate::hermes_gsp::firmware_in_range(profile) && profile.firmware_maximum_bytes > 0
            ==> profile.firmware_alignment > 0 && profile.firmware_minimum_bytes
            <= profile.firmware_maximum_bytes,
{
}

/// Every event that is heard is counted once, in its order.
pub proof fn law_heard_events_are_counted<L: EventLedger, M: TemporalMesh>(
    observer: BlackLabDriverObserver<L, M>,
    event: DriverNetEvent,
    after: BlackLabDriverObserver<L, M>,
)
    requires
        observer.observes(event, after),
    ensures
        observer.observed < u64::MAX ==> after.observed - observer.observed == 1,
        after.heard@ == observer.heard@.push(event),
        observer.last_fault is Some ==> after.oracular == observer.oracular && after.ledger
            == observer.ledger,
        observer.last_fault is None ==> after.ledger.history().len()
            == observer.ledger.history().len() + 1,
        observer.last_fault is None && after.ledger.history().last().reply is Err
            ==> after.oracular == observer.oracular && after.last_fault is Some,
{
}

/// A delay of no ticks never misses its deadline; any other fails if the deadline
/// has come when it ends.
pub proof fn law_only_a_real_delay_can_be_late<B: HermesPlatform>(
    instruction: HermesBootInstruction,
    deadline_tick: u64,
    log: Seq<HermesEvent<B>>,
    at: int,
    result: Result<(), HermesFault>,
    end: int,
)
    requires
        crate::hermes_transport::delay_step(instruction, deadline_tick, log, at) == Some(
            (result, end),
        ),
    ensures
        log[at] is Now,
        log[at]->Now_tick + instruction.words[0] > u64::MAX ==> result == Err::<(), _>(
            HermesFault::ArithmeticOverflow,
        ) && end == at + 1,
        instruction.words[0] == 0 ==> result != Err::<(), _>(HermesFault::DeadlineExpired),
        result == Err::<(), _>(HermesFault::DeadlineExpired) ==> instruction.words[0] > 0 && log[end
            - 1] is Now && crate::hermes_gsp::tick_reached(log[end - 1]->Now_tick, deadline_tick),
{
}

/// A step is asked again only if its fault allows it, tries are left and neither
/// deadline has passed.
pub proof fn law_a_step_is_tried_again_in_time(
    case: Candidacy,
    step: ProbeStep,
    attempt: int,
    step_deadline: u64,
    program_deadline: u64,
    transaction: ProbeTransaction,
    log: Seq<BackendEvent>,
    at: int,
    fault: BackendFault,
    after: ProbeTransaction,
    result: Result<ProbeObservation, BackendFault>,
    then: ProbeTransaction,
    end: int,
)
    requires
        crate::drivernet::dispatch::probe_at(log, at, case, transaction, step, attempt) == Some(
            (after, Err::<ProbeObservation, _>(fault)),
        ),
        crate::drivernet::dispatch::step_run(
            case,
            step,
            attempt,
            step_deadline,
            program_deadline,
            transaction,
            log,
            at,
        ) == Some((result, then, end)),
    ensures
        !fault.retryable || attempt >= step.retries ==> result == Err::<ProbeObservation, _>(fault)
            && then == after && end == at + 1,
        fault.retryable && attempt < step.retries ==> log[at + 1] is Tick && (log[at + 1]->Tick_0
            > step_deadline || log[at + 1]->Tick_0 > program_deadline ==> (result matches Err(late)
            && late.code == FaultCode::ProbeTimeout && late.detail == log[at + 1]->Tick_0) && then
            == after && end == at + 2),
        fault.retryable && attempt < step.retries && log[at + 1]->Tick_0 <= step_deadline && log[at
            + 1]->Tick_0 <= program_deadline ==> crate::drivernet::dispatch::probe_at(
            log,
            at + 2,
            case,
            after,
            step,
            attempt + 1,
        ) is Some,
{
    reveal_with_fuel(crate::drivernet::dispatch::step_run, 2);
}

} // verus!
