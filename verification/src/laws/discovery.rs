//! Laws of how functions are found, reached and reported.

use vstd::prelude::*;

use crate::drivernet::configuration::ConfigurationEvent;
use crate::drivernet::dispatch::AttemptOutcome;
use crate::drivernet::dispatch::AttemptRecord;
use crate::drivernet::dispatch::DispatchResolution;
use crate::drivernet::ecam::EcamError;
use crate::drivernet::ecam::EcamWindow;
use crate::drivernet::fingerprint::FingerprintError;
use crate::drivernet::fingerprint::GpuFingerprint;
use crate::drivernet::fingerprint::PciFunctionAddress;
use crate::drivernet::inventory::InventoryModel;
use crate::drivernet::inventory::PciFunctionRecord;
use crate::drivernet::model::DriverStrategy;
use crate::drivernet::model::OracleDecision;
use crate::drivernet::registry::ProbeSemantic;
use crate::drivernet::registry::ShimDescriptor;
use crate::drivernet::registry::VendorGate;
use crate::drivernet::telemetry::DriverNetEventKind;
use crate::pci::PciDevice;

verus! {

/// A window covers the functions of its segment from its first bus to its last.
pub proof fn law_windows_cover_their_buses(window: EcamWindow, address: PciFunctionAddress)
    ensures
        window.contains(address) <==> window.physical_base != 0 && address.segment == window.segment
            && window.bus_start <= address.bus <= window.bus_end && address.slot < 32
            && address.function < 8,
{
}

/// In a window each bus lies one mebibyte, each slot 32 kibibytes, each function
/// 4 kibibytes and each register its offset behind the first, which lies at the
/// base.
pub proof fn law_configuration_space_is_laid_out_evenly(
    window: EcamWindow,
    address: PciFunctionAddress,
    other: PciFunctionAddress,
    offset: u16,
    further: u16,
    place: u64,
    moved: u64,
)
    requires
        window.location(address, offset) == Ok::<u64, EcamError>(place),
        window.location(other, further) == Ok::<u64, EcamError>(moved),
    ensures
        moved - place == (other.bus - address.bus) * 0x10_0000 + (other.slot - address.slot)
            * 0x8000 + (other.function - address.function) * 0x1000 + (further - offset),
        address.bus == window.bus_start && address.slot == 0 && address.function == 0 && offset == 0
            ==> place == window.physical_base,
        place >= window.physical_base,
        offset % 4 == 0,
        offset < 4096,
{
}

/// Windows of one segment overlap when they share a bus.
pub proof fn law_overlapping_windows_share_a_bus(left: EcamWindow, right: EcamWindow, bus: u8)
    ensures
        left.segment == right.segment && left.bus_start <= bus <= left.bus_end && right.bus_start
            <= bus <= right.bus_end ==> crate::drivernet::ecam::windows_overlap(left, right),
        crate::drivernet::ecam::windows_overlap(left, right) && left.valid() && right.valid()
            ==> left.segment == right.segment && ((left.bus_start <= right.bus_start
            <= left.bus_end) || (right.bus_start <= left.bus_start <= right.bus_end)),
        crate::drivernet::ecam::windows_overlap(left, right)
            == crate::drivernet::ecam::windows_overlap(right, left),
{
}

/// A window is put behind every window of a lower segment or bus and before the
/// others.
pub proof fn law_windows_stay_in_order(windows: Seq<EcamWindow>, window: EcamWindow, i: int)
    requires
        crate::drivernet::ecam::windows_ordered(windows),
        0 <= i < windows.len(),
    ensures
        0 <= crate::drivernet::ecam::window_place(windows, window) <= windows.len(),
        i < crate::drivernet::ecam::window_place(windows, window) <==> windows[i].segment
            < window.segment || (windows[i].segment == window.segment && windows[i].bus_start
            < window.bus_start),
    decreases windows.len(),
{
    let rest = windows.drop_last();
    assert(forall|k: int| 0 <= k < rest.len() ==> #[trigger] rest[k] == windows[k]);
    assert(crate::drivernet::ecam::windows_ordered(rest)) by {
        assert forall|k: int, l: int|
            0 <= k < l < rest.len() implies crate::drivernet::ecam::window_precedes(
            #[trigger] rest[k],
            #[trigger] rest[l],
        ) by {
            assert(crate::drivernet::ecam::window_precedes(windows[k], windows[l]));
        }
        assert forall|k: int, l: int|
            0 <= k < l < rest.len() implies !crate::drivernet::ecam::windows_overlap(
            #[trigger] rest[k],
            #[trigger] rest[l],
        ) by {
            assert(!crate::drivernet::ecam::windows_overlap(windows[k], windows[l]));
        }
    }
    if i < rest.len() {
        assert(crate::drivernet::ecam::window_precedes(windows[i], windows[windows.len() - 1]));
        law_windows_stay_in_order(rest, window, i);
    } else if rest.len() > 0 {
        law_windows_stay_in_order(rest, window, rest.len() - 1);
    } else {
        assert(crate::drivernet::ecam::window_place(rest, window) == 0);
    }
}

/// A function answers unless the low half of its first word is zero or all ones.
pub proof fn law_absent_functions_read_as_nothing(vendor_device: u32)
    ensures
        crate::drivernet::inventory::function_present(vendor_device) <==> 0 < vendor_device
            % 0x1_0000 < 0xffff,
{
    crate::bits::lemma_word32(vendor_device);
}

/// A record holds the fields of its four words: joined again they are the words
/// of identity and class, and the third byte of the header and the two low bytes
/// of the interrupt word.
pub proof fn law_a_record_is_its_words(
    address: PciFunctionAddress,
    vendor_device: u32,
    class_revision: u32,
    header: u32,
    interrupt: u32,
)
    ensures
        ({
            let record = crate::drivernet::inventory::decode_function(
                address,
                vendor_device,
                class_revision,
                header,
                interrupt,
            );
            &&& record.address == address
            &&& record.device_id * 0x1_0000 + record.vendor_id == vendor_device
            &&& record.class_code * 0x100_0000 + record.subclass * 0x1_0000
                + record.programming_interface * 0x100 + record.revision == class_revision
            &&& record.header_type == header / 0x1_0000 % 0x100
            &&& record.interrupt_line == interrupt % 0x100
            &&& record.interrupt_pin == interrupt / 0x100 % 0x100
        }),
{
    let record = crate::drivernet::inventory::decode_function(
        address,
        vendor_device,
        class_revision,
        header,
        interrupt,
    );
    crate::bits::lemma_parts(vendor_device, 0, 0, 0, 0, record.device_id, record.vendor_id);
    crate::bits::lemma_parts(
        class_revision,
        record.class_code,
        record.subclass,
        record.programming_interface,
        record.revision,
        0,
        0,
    );
    assert(record.header_type == header / 0x1_0000 % 0x100) by {
        crate::bits::lemma_word32(header);
    }
    assert(record.interrupt_line == interrupt % 0x100 && record.interrupt_pin == interrupt / 0x100
        % 0x100) by {
        crate::bits::lemma_word32(interrupt);
    }
}

/// A function that is found was read at 0, 8, 0xc and 0x3c, in this order.
pub proof fn law_a_found_function_was_read(
    model: InventoryModel,
    address: PciFunctionAddress,
    log: Seq<ConfigurationEvent>,
    at: int,
    record: PciFunctionRecord,
    after: InventoryModel,
    end: int,
)
    requires
        crate::drivernet::inventory::function_read(model, address, log, at) == Some(
            (Some(record), after, end),
        ),
    ensures
        end == at + 4,
        log[at] == (ConfigurationEvent::Word {
            address,
            offset: 0,
            reply: Ok((record.device_id * 0x1_0000 + record.vendor_id) as u32),
        }),
        log[at + 1] == (ConfigurationEvent::Word {
            address,
            offset: 8,
            reply: Ok(
                (record.class_code * 0x100_0000 + record.subclass * 0x1_0000
                    + record.programming_interface * 0x100 + record.revision) as u32,
            ),
        }),
        log[at + 2] is Word,
        log[at + 2]->Word_offset == 0xc,
        log[at + 2]->Word_reply is Ok,
        log[at + 3] is Word,
        log[at + 3]->Word_offset == 0x3c,
        log[at + 3]->Word_reply is Ok ==> after == model,
        log[at + 3]->Word_reply is Err ==> record.interrupt_line == 0xff && record.interrupt_pin
            == 0,
        after.functions == model.functions,
        record.address == address,
        0 < record.vendor_id < 0xffff,
{
    let interrupt = if log[at + 3]->Word_reply is Ok {
        log[at + 3]->Word_reply->Ok_0
    } else {
        0xff
    };
    let first = log[at]->Word_reply->Ok_0;
    law_a_record_is_its_words(
        address,
        first,
        log[at + 1]->Word_reply->Ok_0,
        log[at + 2]->Word_reply->Ok_0,
        interrupt,
    );
    law_absent_functions_read_as_nothing(first);
    assert(first as u16 == first % 0x1_0000) by {
        crate::bits::lemma_word32(first);
    }
}

/// A slot whose first function is absent, or present with a header below 128, is
/// read no further.
pub proof fn law_a_single_function_ends_its_slot(
    model: InventoryModel,
    capacity: int,
    segment: u16,
    bus: u8,
    slot: u8,
    log: Seq<ConfigurationEvent>,
    at: int,
    found: Option<PciFunctionRecord>,
    next: InventoryModel,
    end: int,
)
    requires
        crate::drivernet::inventory::function_read(
            model,
            PciFunctionAddress { segment, bus, slot, function: 0 },
            log,
            at,
        ) == Some((found, next, end)),
    ensures
        found is None ==> crate::drivernet::inventory::functions_read(
            model,
            capacity,
            segment,
            bus,
            slot,
            0,
            log,
            at,
        ) == Some((next, end)),
        found is Some && found->0.header_type < 128
            ==> crate::drivernet::inventory::functions_read(
            model,
            capacity,
            segment,
            bus,
            slot,
            0,
            log,
            at,
        ) == Some((crate::drivernet::inventory::offered_display(next, found->0, capacity), end)),
        found is Some && found->0.header_type >= 128
            ==> crate::drivernet::inventory::functions_read(
            model,
            capacity,
            segment,
            bus,
            slot,
            0,
            log,
            at,
        ) == crate::drivernet::inventory::functions_read(
            crate::drivernet::inventory::offered_display(next, found->0, capacity),
            capacity,
            segment,
            bus,
            slot,
            1,
            log,
            end,
        ),
{
    if let Some(record) = found {
        crate::bits::lemma_byte(record.header_type);
        lemma_gate_bits(0, 0, 0, 0, 0);
    }
}

/// A display function that is new is listed behind the others; one that is
/// listed already, or of another class, changes nothing; one too many is only
/// remembered as such.
pub proof fn law_display_functions_are_listed_once(
    model: InventoryModel,
    function: PciFunctionRecord,
    capacity: int,
)
    ensures
        ({
            let after = crate::drivernet::inventory::offered_display(model, function, capacity);
            let known = exists|i: int|
                0 <= i < model.functions.len() && (#[trigger] model.functions[i]).address
                    == function.address;
            &&& after.faults == model.faults
            &&& function.class_code != 3 || known ==> after == model
            &&& function.class_code == 3 && !known && model.functions.len() < capacity
                ==> after.functions == model.functions.push(function) && after.overflowed
                == model.overflowed
            &&& function.class_code == 3 && !known && model.functions.len() >= capacity
                ==> after.functions == model.functions && after.overflowed
        }),
{
}

/// A legacy device keeps its fields and gets segment zero.
pub proof fn law_a_legacy_record_is_its_device(device: PciDevice)
    ensures
        ({
            let record = crate::drivernet::inventory::legacy_record(device);
            &&& record.address.segment == 0
            &&& (record.address.bus, record.address.slot, record.address.function) == (
                device.address.bus,
                device.address.slot,
                device.address.function,
            )
            &&& (record.vendor_id, record.device_id) == (device.vendor_id, device.device_id)
            &&& (record.class_code, record.subclass, record.programming_interface) == (
                device.class_code,
                device.subclass,
                device.programming_interface,
            )
            &&& (record.revision, record.header_type) == (device.revision, device.header_type)
            &&& (record.interrupt_line, record.interrupt_pin) == (
                device.interrupt_line,
                device.interrupt_pin,
            )
        }),
{
}

/// A read that fails counts one fault, as far as the counter reaches.
pub proof fn law_faults_count_by_one(model: InventoryModel)
    ensures
        model.faults < u32::MAX ==> crate::drivernet::inventory::faulted(model).faults
            - model.faults == 1,
        crate::drivernet::inventory::faulted(model).functions == model.functions,
        crate::drivernet::inventory::faulted(model).overflowed == model.overflowed,
{
}

/// Events are numbered from 1 to 11 in a fixed order.
pub proof fn law_events_are_numbered()
    ensures
        DriverNetEventKind::Fingerprint.code() == 1,
        DriverNetEventKind::Fingerprint.code() < DriverNetEventKind::OracleDecision.code()
            < DriverNetEventKind::CandidateAttempt.code() < DriverNetEventKind::Rollback.code()
            < DriverNetEventKind::Commit.code() < DriverNetEventKind::PrimarySelected.code()
            < DriverNetEventKind::FirmwareFallback.code() < DriverNetEventKind::Quarantine.code()
            < DriverNetEventKind::InventoryOverflow.code() < DriverNetEventKind::NoDisplay.code()
            < DriverNetEventKind::ConfigurationIncomplete.code(),
        DriverNetEventKind::ConfigurationIncomplete.code() == 11,
{
}

proof fn lemma_packed_words(
    segment: u16,
    bus: u8,
    slot: u8,
    function: u8,
    a: u16,
    b: u16,
    c: u16,
    d: u16,
    low: u32,
    high: u32,
    byte: u8,
    more: u8,
)
    by (bit_vector)
    ensures
        slot < 32 && function < 8 ==> (segment as u32) | ((bus as u32) << 16) | ((slot as u32)
            << 24) | ((function as u32) << 29) == segment + bus * 0x1_0000 + slot * 0x100_0000
            + function * 0x2000_0000,
        (a as u64) | ((b as u64) << 16) | ((c as u64) << 32) | ((d as u64) << 48) == a + b
            * 0x1_0000 + c * 0x1_0000_0000 + d * 0x1_0000_0000_0000,
        (low as u64) | ((high as u64) << 32) == low + high * 0x1_0000_0000,
        (a as u64) | ((low as u64) << 16) == a + low * 0x1_0000,
        (low as u64) | ((byte as u64) << 32) | ((more as u64) << 40) | ((a as u64) << 48) == low
            + byte * 0x1_0000_0000 + more * 0x100_0000_0000 + a * 0x1_0000_0000_0000,
{
}

/// An event names its function by one number: segment, bus, slot and function
/// side by side.
pub proof fn law_an_address_is_packed_side_by_side(fingerprint: GpuFingerprint)
    requires
        fingerprint.slot < 32,
        fingerprint.function < 8,
    ensures
        crate::drivernet::telemetry::packed_address(&fingerprint) == fingerprint.segment
            + fingerprint.bus * 0x1_0000 + fingerprint.slot * 0x100_0000 + fingerprint.function
            * 0x2000_0000,
{
    lemma_packed_words(
        fingerprint.segment,
        fingerprint.bus,
        fingerprint.slot,
        fingerprint.function,
        0,
        0,
        0,
        0,
        0,
        0,
        0,
        0,
    );
}

/// The event of a fingerprint tells the four identifiers and the two sets of
/// flags, side by side.
pub proof fn law_a_fingerprint_event_tells_identity_and_flags(
    secret: u64,
    tick: u64,
    fingerprint: GpuFingerprint,
)
    ensures
        ({
            let event = crate::drivernet::telemetry::fingerprint_event_of(
                secret,
                tick,
                fingerprint,
            );
            &&& event.tick == tick
            &&& event.kind is Fingerprint
            &&& event.severity == 0
            &&& event.fingerprint_root == fingerprint.evidence_root
            &&& event.decision_root == 0
            &&& event.data0 == fingerprint.vendor_id + fingerprint.device_id * 0x1_0000
                + fingerprint.subsystem_vendor_id * 0x1_0000_0000 + fingerprint.subsystem_device_id
                * 0x1_0000_0000_0000
            &&& event.data1 == fingerprint.capability_flags + fingerprint.topology_flags
                * 0x1_0000_0000
        }),
{
    lemma_packed_words(
        0,
        0,
        0,
        0,
        fingerprint.vendor_id,
        fingerprint.device_id,
        fingerprint.subsystem_vendor_id,
        fingerprint.subsystem_device_id,
        fingerprint.capability_flags,
        fingerprint.topology_flags,
        0,
        0,
    );
}

/// The event of a decision names the leading strategy, tells confidence and
/// reasons, and is a warning below a confidence of 12000.
pub proof fn law_a_decision_event_tells_confidence_and_reasons(
    secret: u64,
    tick: u64,
    fingerprint: GpuFingerprint,
    decision: OracleDecision,
)
    ensures
        ({
            let event = crate::drivernet::telemetry::decision_event_of(
                secret,
                tick,
                fingerprint,
                decision,
            );
            &&& event.tick == tick
            &&& event.kind is OracleDecision
            &&& event.severity == (if decision.confidence_q16 < 12000 {
                1int
            } else {
                0
            })
            &&& decision.length > 0 ==> event.strategy == decision.ranked[0].strategy
            &&& event.fingerprint_root == fingerprint.evidence_root
            &&& event.decision_root == decision.decision_root
            &&& event.data0 == decision.confidence_q16 + decision.reasons * 0x1_0000
            &&& event.data1 == decision.best_margin as u64
        }),
{
    lemma_packed_words(
        0,
        0,
        0,
        0,
        decision.confidence_q16,
        0,
        0,
        0,
        decision.reasons,
        0,
        0,
        0,
    );
}

/// The event of an attempt tells its evidence, stage, outcome and fault side by
/// side; a rollback is reported as one, and what went worse is more severe.
pub proof fn law_an_attempt_event_tells_how_it_went(
    secret: u64,
    fingerprint: GpuFingerprint,
    decision_root: u64,
    attempt: AttemptRecord,
)
    ensures
        ({
            let event = crate::drivernet::telemetry::attempt_event_of(
                secret,
                fingerprint,
                decision_root,
                attempt,
            );
            &&& event.tick == attempt.ended_tick
            &&& event.kind is Rollback <==> attempt.outcome is RolledBack
            &&& event.kind is CandidateAttempt <==> !(attempt.outcome is RolledBack)
            &&& event.strategy == attempt.strategy
            &&& event.fingerprint_root == fingerprint.evidence_root
            &&& event.decision_root == decision_root
            &&& event.data0 == attempt.evidence_mask + attempt.stage.code() * 0x1_0000_0000
                + attempt.outcome.code() * 0x100_0000_0000 + attempt.fault.code()
                * 0x1_0000_0000_0000
            &&& event.data1 == attempt.detail
            &&& attempt.outcome is Committed <==> event.severity == 0
            &&& attempt.outcome is Skipped <==> event.severity == 1
            &&& attempt.outcome is RolledBack <==> event.severity == 2
            &&& event.severity <= 3
        }),
{
    lemma_packed_words(
        0,
        0,
        0,
        0,
        attempt.fault.code(),
        0,
        0,
        0,
        attempt.evidence_mask,
        0,
        attempt.stage.code(),
        attempt.outcome.code(),
    );
}

/// The event of a lease tells whether the device was committed, fell back to
/// firmware or was quarantined, and only quarantine is severe.
pub proof fn law_a_lease_event_tells_what_drives_the_device(
    secret: u64,
    fingerprint: GpuFingerprint,
    resolution: DispatchResolution,
)
    ensures
        ({
            let event = crate::drivernet::telemetry::lease_event_of(
                secret,
                fingerprint,
                resolution,
            );
            &&& event.kind is FirmwareFallback <==> resolution.active_strategy
                is FirmwareFramebuffer
            &&& event.kind is Quarantine <==> resolution.active_strategy is Quarantine
            &&& event.kind is Commit <==> resolution.active_strategy.index() < 5
            &&& event.severity == (if resolution.active_strategy is Quarantine {
                4int
            } else {
                0
            })
            &&& event.tick == resolution.lease.committed_tick
            &&& event.data0 == resolution.lease.handle
            &&& event.data1 == resolution.resolution_root
            &&& event.strategy == resolution.active_strategy
            &&& event.decision_root == resolution.decision_root
        }),
{
}

/// A resolution is told attempt by attempt, in order, and last its lease.
pub proof fn law_a_resolution_is_told_in_order(
    secret: u64,
    fingerprint: GpuFingerprint,
    resolution: DispatchResolution,
    i: int,
)
    requires
        0 <= i < resolution.attempts@.len(),
    ensures
        ({
            let told = crate::drivernet::telemetry::resolution_events_of(
                secret,
                fingerprint,
                resolution,
            );
            &&& told.len() == resolution.attempts@.len() + 1
            &&& told[i].tick == resolution.attempts@[i].ended_tick
            &&& told[i].strategy == resolution.attempts@[i].strategy
            &&& told.last().tick == resolution.lease.committed_tick
        }),
{
}

/// What a probe can be asked is numbered from 1 to 12 in a fixed order.
pub proof fn law_probe_questions_are_numbered()
    ensures
        ProbeSemantic::ValidateIdentity.code() == 1,
        ProbeSemantic::ValidateIdentity.code() < ProbeSemantic::VerifyIommuIsolation.code()
            < ProbeSemantic::MapControlBarReadOnly.code()
            < ProbeSemantic::SampleVendorSignature.code()
            < ProbeSemantic::VerifyResetMechanism.code()
            < ProbeSemantic::VerifyInterruptRoute.code() < ProbeSemantic::VerifyFirmwareLease.code()
            < ProbeSemantic::VerifyTransportPersonality.code()
            < ProbeSemantic::VerifyDisplayEngine.code()
            < ProbeSemantic::VerifyCommandRingGeometry.code()
            < ProbeSemantic::VerifyParavirtualCapability.code()
            < ProbeSemantic::EstablishHealthBaseline.code(),
        ProbeSemantic::EstablishHealthBaseline.code() == 12,
{
}

proof fn lemma_gate_bits(id: u16, value: u16, mask: u16, flags: u32, wanted: u32)
    by (bit_vector)
    ensures
        id & mask == value & mask <==> (id ^ value) & mask == 0,
        flags & wanted == wanted <==> wanted & !flags == 0,
        flags & wanted == wanted & flags,
        crate::drivernet::inventory::MULTIFUNCTION_HEADER == 0x80,
{
}

/// A gate admits any vendor for 0xffff and otherwise its own, and devices that
/// agree with it on every masked bit.
pub proof fn law_a_vendor_gate_compares_under_its_mask(
    gate: VendorGate,
    fingerprint: GpuFingerprint,
)
    ensures
        gate.matches(&fingerprint) <==> (gate.vendor_id == 0xffff || gate.vendor_id
            == fingerprint.vendor_id) && (fingerprint.device_id ^ gate.device_id_value)
            & gate.device_id_mask == 0,
        VendorGate::any().matches(&fingerprint),
{
    lemma_gate_bits(
        fingerprint.device_id,
        gate.device_id_value,
        gate.device_id_mask,
        0,
        0,
    );
    let open = VendorGate::any();
    lemma_gate_bits(fingerprint.device_id, open.device_id_value, open.device_id_mask, 0, 0);
    crate::bits::lemma_word16(fingerprint.device_id ^ open.device_id_value);
}

/// A driver takes a function of its vendor that has all the topology it requires
/// and none that it forbids, from its least confidence on.
pub proof fn law_what_a_driver_takes(
    descriptor: ShimDescriptor,
    fingerprint: GpuFingerprint,
    confidence_q16: u16,
)
    ensures
        descriptor.takes(fingerprint, confidence_q16) ==> descriptor.vendor_gate.matches(
            &fingerprint,
        ) && descriptor.required_topology & !fingerprint.topology_flags == 0
            && descriptor.forbidden_topology & fingerprint.topology_flags == 0
            && descriptor.minimum_confidence_q16 <= confidence_q16,
        descriptor.takes(fingerprint, confidence_q16) && confidence_q16 < u16::MAX
            ==> descriptor.takes(fingerprint, (confidence_q16 + 1) as u16),
{
    lemma_gate_bits(0, 0, 0, fingerprint.topology_flags, descriptor.required_topology);
    lemma_gate_bits(0, 0, 0, fingerprint.topology_flags, descriptor.forbidden_topology);
}

/// A strategy is described by the first descriptor for it.
pub proof fn law_a_strategy_is_described_once(
    descriptors: Seq<ShimDescriptor>,
    strategy: DriverStrategy,
)
    ensures
        crate::drivernet::registry::described(descriptors, strategy) matches Some(descriptor)
            ==> descriptor.strategy == strategy && descriptors.contains(descriptor),
        crate::drivernet::registry::described(descriptors, strategy) is None <==> forall|i: int|
            0 <= i < descriptors.len() ==> (#[trigger] descriptors[i]).strategy != strategy,
    decreases descriptors.len(),
{
    if descriptors.len() > 0 {
        let rest = descriptors.skip(1);
        law_a_strategy_is_described_once(rest, strategy);
        assert(forall|i: int| 0 <= i < rest.len() ==> #[trigger] rest[i] == descriptors[i + 1]);
        if descriptors[0].strategy != strategy {
            if let Some(descriptor) = crate::drivernet::registry::described(rest, strategy) {
                let k = choose|k: int| 0 <= k < rest.len() && rest[k] == descriptor;
                assert(descriptors[k + 1] == descriptor);
                assert(descriptors[k + 1].strategy == strategy);
            } else {
                assert forall|i: int| 0 <= i < descriptors.len() implies (
                #[trigger] descriptors[i]).strategy != strategy by {
                    if i > 0 {
                        assert(rest[i - 1].strategy != strategy);
                    }
                }
            }
        } else {
            assert(descriptors[0].strategy == strategy);
            assert(descriptors.contains(descriptors[0]));
        }
    }
}

/// The outcomes of a configuration read through a window: an unaligned offset, an
/// offset beyond the space and a failed location are told apart.
pub proof fn law_configuration_faults_are_told_apart(error: EcamError, offset: u16)
    ensures
        crate::drivernet::ecam::location_fault(error, offset)
            == FingerprintError::UnalignedConfigurationOffset <==> error is InvalidOffset && offset
            % 4 != 0,
        crate::drivernet::ecam::location_fault(error, offset)
            == FingerprintError::UnsupportedConfigurationOffset <==> error is InvalidOffset && offset
            % 4 == 0,
{
}

/// Attempts that did worse are more severe.
pub proof fn law_worse_attempts_are_more_severe()
    ensures
        crate::drivernet::telemetry::attempt_severity(AttemptOutcome::Committed)
            < crate::drivernet::telemetry::attempt_severity(AttemptOutcome::Skipped)
            < crate::drivernet::telemetry::attempt_severity(AttemptOutcome::RolledBack),
{
}

} // verus!
