//! Laws of what the roots cover: a root changes with every field it seals.

use vstd::prelude::*;

use crate::drivernet::dispatch::AttemptRecord;
use crate::drivernet::dispatch::DriverLease;
use crate::drivernet::dispatch::ProbeObservation;
use crate::drivernet::fingerprint::FirmwareFramebufferEvidence;
use crate::drivernet::model::DriverStrategy;
use crate::drivernet::model::OracleDecision;
use crate::drivernet::telemetry::DriverNetEvent;
use crate::xhci::ReadyHalted;
use crate::xhci::TakeoverPhase;
use crate::xhci::XhciCapabilitySnapshot;
use crate::xhci::XhciDebtClass;
use crate::xhci_dma::IdentityDmaWindow;
use crate::xhci_dma::XhciDmaRegionRecord;
use crate::xhci_ports::XhciPortObservation;
use crate::xhci_protocol::ProtocolBody;
use crate::xhci_protocol::UsbProtocolKind;
use crate::pci::Bar0ApertureLease;

verus! {

/// The root of a controller's capabilities changes with the evidence, the claim and
/// the window that it rests on.
pub proof fn law_a_snapshot_root_covers_what_it_rests_on(
    seed: u64,
    one: XhciCapabilitySnapshot,
    other: XhciCapabilitySnapshot,
)
    ensures
        ({
            let sealed = crate::seal::seal_of(
                seed,
                one.words(),
            );
            &&& one.evidence_root != other.evidence_root ==> sealed != crate::seal::seal_of(
                seed,
                (XhciCapabilitySnapshot { evidence_root: other.evidence_root, ..one }).words(),
            )
            &&& one.binding_root != other.binding_root ==> sealed != crate::seal::seal_of(
                seed,
                (XhciCapabilitySnapshot { binding_root: other.binding_root, ..one }).words(),
            )
            &&& one.mmio_base != other.mmio_base ==> sealed != crate::seal::seal_of(
                seed,
                (XhciCapabilitySnapshot { mmio_base: other.mmio_base, ..one }).words(),
            )
            &&& one.bootstrap_header_count != other.bootstrap_header_count
                ==> sealed != crate::seal::seal_of(
                seed,
                (
                    XhciCapabilitySnapshot {
                        bootstrap_header_count: other.bootstrap_header_count,
                        ..one
                    }
                ).words(),
            )
            &&& one.bootstrap_range_root != other.bootstrap_range_root
                ==> sealed != crate::seal::seal_of(
                seed,
                (
                    XhciCapabilitySnapshot {
                        bootstrap_range_root: other.bootstrap_range_root,
                        ..one
                    }
                ).words(),
            )
        }),
{
    let words = one.words();
    if one.evidence_root != other.evidence_root {
        crate::laws::seal::law_one_changed_word_changes_the_root(
            seed,
            words,
            (XhciCapabilitySnapshot { evidence_root: other.evidence_root, ..one }).words(),
            4,
        );
    }
    if one.binding_root != other.binding_root {
        crate::laws::seal::law_one_changed_word_changes_the_root(
            seed,
            words,
            (XhciCapabilitySnapshot { binding_root: other.binding_root, ..one }).words(),
            5,
        );
    }
    if one.mmio_base != other.mmio_base {
        crate::laws::seal::law_one_changed_word_changes_the_root(
            seed,
            words,
            (XhciCapabilitySnapshot { mmio_base: other.mmio_base, ..one }).words(),
            6,
        );
    }
    if one.bootstrap_header_count != other.bootstrap_header_count {
        crate::laws::seal::law_one_changed_word_changes_the_root(
            seed,
            words,
            (
                XhciCapabilitySnapshot {
                    bootstrap_header_count: other.bootstrap_header_count,
                    ..one
                }
            ).words(),
            19,
        );
    }
    if one.bootstrap_range_root != other.bootstrap_range_root {
        crate::laws::seal::law_one_changed_word_changes_the_root(
            seed,
            words,
            (
                XhciCapabilitySnapshot { bootstrap_range_root: other.bootstrap_range_root, ..one }
            ).words(),
            20,
        );
    }
}

/// The root of a controller's capabilities changes with its version and its counts.
pub proof fn law_a_snapshot_root_covers_every_count(
    seed: u64,
    one: XhciCapabilitySnapshot,
    other: XhciCapabilitySnapshot,
)
    ensures
        ({
            let sealed = crate::seal::seal_of(
                seed,
                one.words(),
            );
            &&& one.interface_version != other.interface_version
                ==> sealed != crate::seal::seal_of(
                seed,
                (
                    XhciCapabilitySnapshot { interface_version: other.interface_version, ..one }
                ).words(),
            )
            &&& one.maximum_device_slots != other.maximum_device_slots
                ==> sealed != crate::seal::seal_of(
                seed,
                (
                    XhciCapabilitySnapshot {
                        maximum_device_slots: other.maximum_device_slots,
                        ..one
                    }
                ).words(),
            )
            &&& one.maximum_interrupters != other.maximum_interrupters
                ==> sealed != crate::seal::seal_of(
                seed,
                (
                    XhciCapabilitySnapshot {
                        maximum_interrupters: other.maximum_interrupters,
                        ..one
                    }
                ).words(),
            )
            &&& one.maximum_ports != other.maximum_ports ==> sealed != crate::seal::seal_of(
                seed,
                (XhciCapabilitySnapshot { maximum_ports: other.maximum_ports, ..one }).words(),
            )
            &&& one.maximum_scratchpad_buffers != other.maximum_scratchpad_buffers
                ==> sealed != crate::seal::seal_of(
                seed,
                (
                    XhciCapabilitySnapshot {
                        maximum_scratchpad_buffers: other.maximum_scratchpad_buffers,
                        ..one
                    }
                ).words(),
            )
        }),
{
    let words = one.words();
    if one.interface_version != other.interface_version {
        crate::laws::seal::law_one_changed_word_changes_the_root(
            seed,
            words,
            (XhciCapabilitySnapshot { interface_version: other.interface_version, ..one }).words(),
            8,
        );
    }
    if one.maximum_device_slots != other.maximum_device_slots {
        crate::laws::seal::law_one_changed_word_changes_the_root(
            seed,
            words,
            (
                XhciCapabilitySnapshot { maximum_device_slots: other.maximum_device_slots, ..one }
            ).words(),
            9,
        );
    }
    if one.maximum_interrupters != other.maximum_interrupters {
        crate::laws::seal::law_one_changed_word_changes_the_root(
            seed,
            words,
            (
                XhciCapabilitySnapshot { maximum_interrupters: other.maximum_interrupters, ..one }
            ).words(),
            10,
        );
    }
    if one.maximum_ports != other.maximum_ports {
        crate::laws::seal::law_one_changed_word_changes_the_root(
            seed,
            words,
            (XhciCapabilitySnapshot { maximum_ports: other.maximum_ports, ..one }).words(),
            11,
        );
    }
    if one.maximum_scratchpad_buffers != other.maximum_scratchpad_buffers {
        crate::laws::seal::law_one_changed_word_changes_the_root(
            seed,
            words,
            (
                XhciCapabilitySnapshot {
                    maximum_scratchpad_buffers: other.maximum_scratchpad_buffers,
                    ..one
                }
            ).words(),
            12,
        );
    }
}

/// The root of a controller's capabilities changes with where its registers lie and
/// how it addresses memory.
pub proof fn law_a_snapshot_root_covers_every_place(
    seed: u64,
    one: XhciCapabilitySnapshot,
    other: XhciCapabilitySnapshot,
)
    ensures
        ({
            let sealed = crate::seal::seal_of(
                seed,
                one.words(),
            );
            &&& one.capability_length != other.capability_length
                ==> sealed != crate::seal::seal_of(
                seed,
                (
                    XhciCapabilitySnapshot { capability_length: other.capability_length, ..one }
                ).words(),
            )
            &&& one.supports_64_bit_addresses != other.supports_64_bit_addresses
                ==> sealed != crate::seal::seal_of(
                seed,
                (
                    XhciCapabilitySnapshot {
                        supports_64_bit_addresses: other.supports_64_bit_addresses,
                        ..one
                    }
                ).words(),
            )
            &&& one.uses_64_byte_contexts != other.uses_64_byte_contexts
                ==> sealed != crate::seal::seal_of(
                seed,
                (
                    XhciCapabilitySnapshot {
                        uses_64_byte_contexts: other.uses_64_byte_contexts,
                        ..one
                    }
                ).words(),
            )
            &&& one.doorbell_offset != other.doorbell_offset
                ==> sealed != crate::seal::seal_of(
                seed,
                (XhciCapabilitySnapshot { doorbell_offset: other.doorbell_offset, ..one }).words(),
            )
            &&& one.runtime_offset != other.runtime_offset
                ==> sealed != crate::seal::seal_of(
                seed,
                (XhciCapabilitySnapshot { runtime_offset: other.runtime_offset, ..one }).words(),
            )
            &&& one.extended_capabilities_offset != other.extended_capabilities_offset
                ==> sealed != crate::seal::seal_of(
                seed,
                (
                    XhciCapabilitySnapshot {
                        extended_capabilities_offset: other.extended_capabilities_offset,
                        ..one
                    }
                ).words(),
            )
            &&& one.legacy_support_offset != other.legacy_support_offset
                ==> sealed != crate::seal::seal_of(
                seed,
                (
                    XhciCapabilitySnapshot {
                        legacy_support_offset: other.legacy_support_offset,
                        ..one
                    }
                ).words(),
            )
        }),
{
    let words = one.words();
    if one.capability_length != other.capability_length {
        crate::laws::seal::law_one_changed_word_changes_the_root(
            seed,
            words,
            (XhciCapabilitySnapshot { capability_length: other.capability_length, ..one }).words(),
            7,
        );
    }
    if one.supports_64_bit_addresses != other.supports_64_bit_addresses {
        crate::laws::seal::law_one_changed_word_changes_the_root(
            seed,
            words,
            (
                XhciCapabilitySnapshot {
                    supports_64_bit_addresses: other.supports_64_bit_addresses,
                    ..one
                }
            ).words(),
            13,
        );
    }
    if one.uses_64_byte_contexts != other.uses_64_byte_contexts {
        crate::laws::seal::law_one_changed_word_changes_the_root(
            seed,
            words,
            (
                XhciCapabilitySnapshot { uses_64_byte_contexts: other.uses_64_byte_contexts, ..one }
            ).words(),
            14,
        );
    }
    if one.doorbell_offset != other.doorbell_offset {
        crate::laws::seal::law_one_changed_word_changes_the_root(
            seed,
            words,
            (XhciCapabilitySnapshot { doorbell_offset: other.doorbell_offset, ..one }).words(),
            15,
        );
    }
    if one.runtime_offset != other.runtime_offset {
        crate::laws::seal::law_one_changed_word_changes_the_root(
            seed,
            words,
            (XhciCapabilitySnapshot { runtime_offset: other.runtime_offset, ..one }).words(),
            16,
        );
    }
    if one.extended_capabilities_offset != other.extended_capabilities_offset {
        crate::laws::seal::law_one_changed_word_changes_the_root(
            seed,
            words,
            (
                XhciCapabilitySnapshot {
                    extended_capabilities_offset: other.extended_capabilities_offset,
                    ..one
                }
            ).words(),
            17,
        );
    }
    if one.legacy_support_offset != other.legacy_support_offset {
        crate::laws::seal::law_one_changed_word_changes_the_root(
            seed,
            words,
            (
                XhciCapabilitySnapshot { legacy_support_offset: other.legacy_support_offset, ..one }
            ).words(),
            18,
        );
    }
}

/// The root of an event changes with everything that the event tells.
pub proof fn law_an_event_root_covers_the_event(
    seed: u64,
    one: DriverNetEvent,
    other: DriverNetEvent,
)
    ensures
        ({
            let sealed = crate::seal::seal_of(
                seed,
                one.words(),
            );
            &&& one.tick != other.tick ==> sealed != crate::seal::seal_of(
                seed,
                (DriverNetEvent { tick: other.tick, ..one }).words(),
            )
            &&& one.kind != other.kind ==> sealed != crate::seal::seal_of(
                seed,
                (DriverNetEvent { kind: other.kind, ..one }).words(),
            )
            &&& one.severity != other.severity ==> sealed != crate::seal::seal_of(
                seed,
                (DriverNetEvent { severity: other.severity, ..one }).words(),
            )
            &&& one.strategy != other.strategy ==> sealed != crate::seal::seal_of(
                seed,
                (DriverNetEvent { strategy: other.strategy, ..one }).words(),
            )
            &&& one.address != other.address ==> sealed != crate::seal::seal_of(
                seed,
                (DriverNetEvent { address: other.address, ..one }).words(),
            )
            &&& one.fingerprint_root != other.fingerprint_root
                ==> sealed != crate::seal::seal_of(
                seed,
                (DriverNetEvent { fingerprint_root: other.fingerprint_root, ..one }).words(),
            )
            &&& one.decision_root != other.decision_root ==> sealed != crate::seal::seal_of(
                seed,
                (DriverNetEvent { decision_root: other.decision_root, ..one }).words(),
            )
            &&& one.data0 != other.data0 ==> sealed != crate::seal::seal_of(
                seed,
                (DriverNetEvent { data0: other.data0, ..one }).words(),
            )
            &&& one.data1 != other.data1 ==> sealed != crate::seal::seal_of(
                seed,
                (DriverNetEvent { data1: other.data1, ..one }).words(),
            )
        }),
{
    let words = one.words();
    if one.tick != other.tick {
        crate::laws::seal::law_one_changed_word_changes_the_root(
            seed,
            words,
            (DriverNetEvent { tick: other.tick, ..one }).words(),
            0,
        );
    }
    if one.kind != other.kind {
        crate::laws::seal::law_one_changed_word_changes_the_root(
            seed,
            words,
            (DriverNetEvent { kind: other.kind, ..one }).words(),
            1,
        );
    }
    if one.severity != other.severity {
        crate::laws::seal::law_one_changed_word_changes_the_root(
            seed,
            words,
            (DriverNetEvent { severity: other.severity, ..one }).words(),
            2,
        );
    }
    if one.strategy != other.strategy {
        crate::laws::seal::law_one_changed_word_changes_the_root(
            seed,
            words,
            (DriverNetEvent { strategy: other.strategy, ..one }).words(),
            3,
        );
    }
    if one.address != other.address {
        crate::laws::seal::law_one_changed_word_changes_the_root(
            seed,
            words,
            (DriverNetEvent { address: other.address, ..one }).words(),
            4,
        );
    }
    if one.fingerprint_root != other.fingerprint_root {
        crate::laws::seal::law_one_changed_word_changes_the_root(
            seed,
            words,
            (DriverNetEvent { fingerprint_root: other.fingerprint_root, ..one }).words(),
            5,
        );
    }
    if one.decision_root != other.decision_root {
        crate::laws::seal::law_one_changed_word_changes_the_root(
            seed,
            words,
            (DriverNetEvent { decision_root: other.decision_root, ..one }).words(),
            6,
        );
    }
    if one.data0 != other.data0 {
        crate::laws::seal::law_one_changed_word_changes_the_root(
            seed,
            words,
            (DriverNetEvent { data0: other.data0, ..one }).words(),
            7,
        );
    }
    if one.data1 != other.data1 {
        crate::laws::seal::law_one_changed_word_changes_the_root(
            seed,
            words,
            (DriverNetEvent { data1: other.data1, ..one }).words(),
            8,
        );
    }
}

/// The root of an attempt changes with its strategy, stage and outcome, its times,
/// its evidence, its fault and its detail.
pub proof fn law_an_attempt_root_covers_the_attempt(
    seed: u64,
    one: AttemptRecord,
    other: AttemptRecord,
)
    ensures
        ({
            let sealed = crate::seal::seal_of(
                seed,
                one.words(),
            );
            &&& one.strategy != other.strategy ==> sealed != crate::seal::seal_of(
                seed,
                (AttemptRecord { strategy: other.strategy, ..one }).words(),
            )
            &&& one.stage != other.stage ==> sealed != crate::seal::seal_of(
                seed,
                (AttemptRecord { stage: other.stage, ..one }).words(),
            )
            &&& one.outcome != other.outcome ==> sealed != crate::seal::seal_of(
                seed,
                (AttemptRecord { outcome: other.outcome, ..one }).words(),
            )
            &&& one.confidence_q16 != other.confidence_q16
                ==> sealed != crate::seal::seal_of(
                seed,
                (AttemptRecord { confidence_q16: other.confidence_q16, ..one }).words(),
            )
            &&& one.started_tick != other.started_tick ==> sealed != crate::seal::seal_of(
                seed,
                (AttemptRecord { started_tick: other.started_tick, ..one }).words(),
            )
            &&& one.ended_tick != other.ended_tick ==> sealed != crate::seal::seal_of(
                seed,
                (AttemptRecord { ended_tick: other.ended_tick, ..one }).words(),
            )
            &&& one.evidence_mask != other.evidence_mask ==> sealed != crate::seal::seal_of(
                seed,
                (AttemptRecord { evidence_mask: other.evidence_mask, ..one }).words(),
            )
            &&& one.fault != other.fault ==> sealed != crate::seal::seal_of(
                seed,
                (AttemptRecord { fault: other.fault, ..one }).words(),
            )
            &&& one.detail != other.detail ==> sealed != crate::seal::seal_of(
                seed,
                (AttemptRecord { detail: other.detail, ..one }).words(),
            )
        }),
{
    let words = one.words();
    if one.strategy != other.strategy {
        crate::laws::seal::law_one_changed_word_changes_the_root(
            seed,
            words,
            (AttemptRecord { strategy: other.strategy, ..one }).words(),
            0,
        );
    }
    if one.stage != other.stage {
        crate::laws::seal::law_one_changed_word_changes_the_root(
            seed,
            words,
            (AttemptRecord { stage: other.stage, ..one }).words(),
            1,
        );
    }
    if one.outcome != other.outcome {
        crate::laws::seal::law_one_changed_word_changes_the_root(
            seed,
            words,
            (AttemptRecord { outcome: other.outcome, ..one }).words(),
            2,
        );
    }
    if one.confidence_q16 != other.confidence_q16 {
        crate::laws::seal::law_one_changed_word_changes_the_root(
            seed,
            words,
            (AttemptRecord { confidence_q16: other.confidence_q16, ..one }).words(),
            4,
        );
    }
    if one.started_tick != other.started_tick {
        crate::laws::seal::law_one_changed_word_changes_the_root(
            seed,
            words,
            (AttemptRecord { started_tick: other.started_tick, ..one }).words(),
            5,
        );
    }
    if one.ended_tick != other.ended_tick {
        crate::laws::seal::law_one_changed_word_changes_the_root(
            seed,
            words,
            (AttemptRecord { ended_tick: other.ended_tick, ..one }).words(),
            6,
        );
    }
    if one.evidence_mask != other.evidence_mask {
        crate::laws::seal::law_one_changed_word_changes_the_root(
            seed,
            words,
            (AttemptRecord { evidence_mask: other.evidence_mask, ..one }).words(),
            7,
        );
    }
    if one.fault != other.fault {
        crate::laws::seal::law_one_changed_word_changes_the_root(
            seed,
            words,
            (AttemptRecord { fault: other.fault, ..one }).words(),
            8,
        );
    }
    if one.detail != other.detail {
        crate::laws::seal::law_one_changed_word_changes_the_root(
            seed,
            words,
            (AttemptRecord { detail: other.detail, ..one }).words(),
            9,
        );
    }
}

/// The root of a region changes with its purpose, its generation and its extent for
/// memory and device.
pub proof fn law_a_region_root_covers_the_region(
    seed: u64,
    one: XhciDmaRegionRecord,
    other: XhciDmaRegionRecord,
)
    ensures
        ({
            let sealed = crate::seal::seal_of(
                seed,
                one.words(),
            );
            &&& one.purpose != other.purpose ==> sealed != crate::seal::seal_of(
                seed,
                (XhciDmaRegionRecord { purpose: other.purpose, ..one }).words(),
            )
            &&& one.generation != other.generation ==> sealed != crate::seal::seal_of(
                seed,
                (XhciDmaRegionRecord { generation: other.generation, ..one }).words(),
            )
            &&& one.physical_start != other.physical_start
                ==> sealed != crate::seal::seal_of(
                seed,
                (XhciDmaRegionRecord { physical_start: other.physical_start, ..one }).words(),
            )
            &&& one.physical_end != other.physical_end ==> sealed != crate::seal::seal_of(
                seed,
                (XhciDmaRegionRecord { physical_end: other.physical_end, ..one }).words(),
            )
            &&& one.device_address_start != other.device_address_start
                ==> sealed != crate::seal::seal_of(
                seed,
                (
                    XhciDmaRegionRecord { device_address_start: other.device_address_start, ..one }
                ).words(),
            )
            &&& one.device_address_end != other.device_address_end
                ==> sealed != crate::seal::seal_of(
                seed,
                (
                    XhciDmaRegionRecord { device_address_end: other.device_address_end, ..one }
                ).words(),
            )
            &&& one.page_count != other.page_count ==> sealed != crate::seal::seal_of(
                seed,
                (XhciDmaRegionRecord { page_count: other.page_count, ..one }).words(),
            )
        }),
{
    let words = one.words();
    if one.purpose != other.purpose {
        crate::laws::seal::law_one_changed_word_changes_the_root(
            seed,
            words,
            (XhciDmaRegionRecord { purpose: other.purpose, ..one }).words(),
            0,
        );
    }
    if one.generation != other.generation {
        crate::laws::seal::law_one_changed_word_changes_the_root(
            seed,
            words,
            (XhciDmaRegionRecord { generation: other.generation, ..one }).words(),
            1,
        );
    }
    if one.physical_start != other.physical_start {
        crate::laws::seal::law_one_changed_word_changes_the_root(
            seed,
            words,
            (XhciDmaRegionRecord { physical_start: other.physical_start, ..one }).words(),
            5,
        );
    }
    if one.physical_end != other.physical_end {
        crate::laws::seal::law_one_changed_word_changes_the_root(
            seed,
            words,
            (XhciDmaRegionRecord { physical_end: other.physical_end, ..one }).words(),
            6,
        );
    }
    if one.device_address_start != other.device_address_start {
        crate::laws::seal::law_one_changed_word_changes_the_root(
            seed,
            words,
            (
                XhciDmaRegionRecord { device_address_start: other.device_address_start, ..one }
            ).words(),
            7,
        );
    }
    if one.device_address_end != other.device_address_end {
        crate::laws::seal::law_one_changed_word_changes_the_root(
            seed,
            words,
            (XhciDmaRegionRecord { device_address_end: other.device_address_end, ..one }).words(),
            8,
        );
    }
    if one.page_count != other.page_count {
        crate::laws::seal::law_one_changed_word_changes_the_root(
            seed,
            words,
            (XhciDmaRegionRecord { page_count: other.page_count, ..one }).words(),
            9,
        );
    }
}

/// The root of a protocol changes with where it lies and with each of its words.
pub proof fn law_a_protocol_root_covers_its_words(
    seed: u64,
    one: ProtocolBody,
    other: ProtocolBody,
    kind: UsbProtocolKind,
    speed_id_root: u64,
)
    ensures
        ({
            let sealed = crate::seal::seal_of(
                seed,
                one.words(kind, speed_id_root),
            );
            &&& one.offset != other.offset ==> sealed != crate::seal::seal_of(
                seed,
                (ProtocolBody { offset: other.offset, ..one }).words(kind, speed_id_root),
            )
            &&& one.header != other.header ==> sealed != crate::seal::seal_of(
                seed,
                (ProtocolBody { header: other.header, ..one }).words(kind, speed_id_root),
            )
            &&& one.name != other.name ==> sealed != crate::seal::seal_of(
                seed,
                (ProtocolBody { name: other.name, ..one }).words(kind, speed_id_root),
            )
            &&& one.ports != other.ports ==> sealed != crate::seal::seal_of(
                seed,
                (ProtocolBody { ports: other.ports, ..one }).words(kind, speed_id_root),
            )
            &&& one.slot != other.slot ==> sealed != crate::seal::seal_of(
                seed,
                (ProtocolBody { slot: other.slot, ..one }).words(kind, speed_id_root),
            )
        }),
{
    let words = one.words(kind, speed_id_root);
    if one.offset != other.offset {
        crate::laws::seal::law_one_changed_word_changes_the_root(
            seed,
            words,
            (ProtocolBody { offset: other.offset, ..one }).words(kind, speed_id_root),
            0,
        );
    }
    if one.header != other.header {
        crate::laws::seal::law_one_changed_word_changes_the_root(
            seed,
            words,
            (ProtocolBody { header: other.header, ..one }).words(kind, speed_id_root),
            1,
        );
    }
    if one.name != other.name {
        crate::laws::seal::law_one_changed_word_changes_the_root(
            seed,
            words,
            (ProtocolBody { name: other.name, ..one }).words(kind, speed_id_root),
            2,
        );
    }
    if one.ports != other.ports {
        crate::laws::seal::law_one_changed_word_changes_the_root(
            seed,
            words,
            (ProtocolBody { ports: other.ports, ..one }).words(kind, speed_id_root),
            3,
        );
    }
    if one.slot != other.slot {
        crate::laws::seal::law_one_changed_word_changes_the_root(
            seed,
            words,
            (ProtocolBody { slot: other.slot, ..one }).words(kind, speed_id_root),
            4,
        );
    }
}

/// The root of a halted controller changes with the registers that were read, with
/// whether firmware handed over and with the number of ports.
pub proof fn law_a_ready_root_covers_what_was_reached(
    seed: u64,
    snapshot_root: u64,
    authorization_root: u64,
    aperture: Bar0ApertureLease,
    one: ReadyHalted,
    other: ReadyHalted,
    protocols_root: u64,
)
    ensures
        ({
            let sealed = crate::seal::seal_of(
                seed,
                crate::xhci::ready_words(
                    snapshot_root,
                    authorization_root,
                    aperture,
                    one,
                    protocols_root,
                ),
            );
            &&& one.command != other.command ==> sealed != crate::seal::seal_of(
                seed,
                crate::xhci::ready_words(
                    snapshot_root,
                    authorization_root,
                    aperture,
                    (ReadyHalted { command: other.command, ..one }),
                    protocols_root,
                ),
            )
            &&& one.status != other.status ==> sealed != crate::seal::seal_of(
                seed,
                crate::xhci::ready_words(
                    snapshot_root,
                    authorization_root,
                    aperture,
                    (ReadyHalted { status: other.status, ..one }),
                    protocols_root,
                ),
            )
            &&& one.legacy_handoff_performed != other.legacy_handoff_performed
                ==> sealed != crate::seal::seal_of(
                seed,
                crate::xhci::ready_words(
                    snapshot_root,
                    authorization_root,
                    aperture,
                    (
                        ReadyHalted {
                            legacy_handoff_performed: other.legacy_handoff_performed,
                            ..one
                        }
                    ),
                    protocols_root,
                ),
            )
            &&& one.ports_observed != other.ports_observed
                ==> sealed != crate::seal::seal_of(
                seed,
                crate::xhci::ready_words(
                    snapshot_root,
                    authorization_root,
                    aperture,
                    (ReadyHalted { ports_observed: other.ports_observed, ..one }),
                    protocols_root,
                ),
            )
        }),
{
    let words = crate::xhci::ready_words(
        snapshot_root,
        authorization_root,
        aperture,
        one,
        protocols_root,
    );
    if one.command != other.command {
        crate::laws::seal::law_one_changed_word_changes_the_root(
            seed,
            words,
            crate::xhci::ready_words(
                    snapshot_root,
                    authorization_root,
                    aperture,
                    (ReadyHalted { command: other.command, ..one }),
                    protocols_root,
                ),
            4,
        );
    }
    if one.status != other.status {
        crate::laws::seal::law_one_changed_word_changes_the_root(
            seed,
            words,
            crate::xhci::ready_words(
                    snapshot_root,
                    authorization_root,
                    aperture,
                    (ReadyHalted { status: other.status, ..one }),
                    protocols_root,
                ),
            5,
        );
    }
    if one.legacy_handoff_performed != other.legacy_handoff_performed {
        crate::laws::seal::law_one_changed_word_changes_the_root(
            seed,
            words,
            crate::xhci::ready_words(
                    snapshot_root,
                    authorization_root,
                    aperture,
                    (
                        ReadyHalted {
                            legacy_handoff_performed: other.legacy_handoff_performed,
                            ..one
                        }
                    ),
                    protocols_root,
                ),
            6,
        );
    }
    if one.ports_observed != other.ports_observed {
        crate::laws::seal::law_one_changed_word_changes_the_root(
            seed,
            words,
            crate::xhci::ready_words(
                    snapshot_root,
                    authorization_root,
                    aperture,
                    (ReadyHalted { ports_observed: other.ports_observed, ..one }),
                    protocols_root,
                ),
            7,
        );
    }
}

/// The root of a halted controller changes with the roots it rests on and with the
/// aperture.
pub proof fn law_a_ready_root_covers_what_it_rests_on(
    seed: u64,
    snapshot_root: u64,
    authorization_root: u64,
    aperture: Bar0ApertureLease,
    ready: ReadyHalted,
    protocols_root: u64,
    root: u64,
    window: Bar0ApertureLease,
)
    ensures
        ({
            let sealed = crate::seal::seal_of(
                seed,
                crate::xhci::ready_words(
                    snapshot_root,
                    authorization_root,
                    aperture,
                    ready,
                    protocols_root,
                ),
            );
            &&& root != snapshot_root ==> sealed != crate::seal::seal_of(
                seed,
                crate::xhci::ready_words(
                    root,
                    authorization_root,
                    aperture,
                    ready,
                    protocols_root,
                ),
            )
            &&& root != authorization_root ==> sealed != crate::seal::seal_of(
                seed,
                crate::xhci::ready_words(
                    snapshot_root,
                    root,
                    aperture,
                    ready,
                    protocols_root,
                ),
            )
            &&& window.physical_base != aperture.physical_base
                ==> sealed != crate::seal::seal_of(
                seed,
                crate::xhci::ready_words(
                    snapshot_root,
                    authorization_root,
                    (Bar0ApertureLease { physical_base: window.physical_base, ..aperture }),
                    ready,
                    protocols_root,
                ),
            )
            &&& window.length != aperture.length ==> sealed != crate::seal::seal_of(
                seed,
                crate::xhci::ready_words(
                    snapshot_root,
                    authorization_root,
                    (Bar0ApertureLease { length: window.length, ..aperture }),
                    ready,
                    protocols_root,
                ),
            )
            &&& root != protocols_root ==> sealed != crate::seal::seal_of(
                seed,
                crate::xhci::ready_words(
                    snapshot_root,
                    authorization_root,
                    aperture,
                    ready,
                    root,
                ),
            )
        }),
{
    let words = crate::xhci::ready_words(
        snapshot_root,
        authorization_root,
        aperture,
        ready,
        protocols_root,
    );
    if root != snapshot_root {
        crate::laws::seal::law_one_changed_word_changes_the_root(
            seed,
            words,
            crate::xhci::ready_words(
                    root,
                    authorization_root,
                    aperture,
                    ready,
                    protocols_root,
                ),
            0,
        );
    }
    if root != authorization_root {
        crate::laws::seal::law_one_changed_word_changes_the_root(
            seed,
            words,
            crate::xhci::ready_words(
                    snapshot_root,
                    root,
                    aperture,
                    ready,
                    protocols_root,
                ),
            1,
        );
    }
    if window.physical_base != aperture.physical_base {
        crate::laws::seal::law_one_changed_word_changes_the_root(
            seed,
            words,
            crate::xhci::ready_words(
                    snapshot_root,
                    authorization_root,
                    (Bar0ApertureLease { physical_base: window.physical_base, ..aperture }),
                    ready,
                    protocols_root,
                ),
            2,
        );
    }
    if window.length != aperture.length {
        crate::laws::seal::law_one_changed_word_changes_the_root(
            seed,
            words,
            crate::xhci::ready_words(
                    snapshot_root,
                    authorization_root,
                    (Bar0ApertureLease { length: window.length, ..aperture }),
                    ready,
                    protocols_root,
                ),
            3,
        );
    }
    if root != protocols_root {
        crate::laws::seal::law_one_changed_word_changes_the_root(
            seed,
            words,
            crate::xhci::ready_words(
                    snapshot_root,
                    authorization_root,
                    aperture,
                    ready,
                    root,
                ),
            8,
        );
    }
}

/// The root of a debt changes with what was at stake, how far the takeover had come,
/// how it failed and which aperture is held.
pub proof fn law_a_debt_root_covers_the_debt(
    seed: u64,
    snapshot_root: u64,
    authorization_root: u64,
    lease: Bar0ApertureLease,
    phase: TakeoverPhase,
    class: XhciDebtClass,
    root: u64,
    later: TakeoverPhase,
    kind: XhciDebtClass,
    window: Bar0ApertureLease,
)
    ensures
        ({
            let sealed = crate::seal::seal_of(
                seed,
                crate::xhci::debt_words(
                    snapshot_root,
                    authorization_root,
                    Some(lease),
                    phase,
                    class,
                ),
            );
            &&& root != snapshot_root ==> sealed != crate::seal::seal_of(
                seed,
                crate::xhci::debt_words(
                    root,
                    authorization_root,
                    Some(lease),
                    phase,
                    class,
                ),
            )
            &&& root != authorization_root ==> sealed != crate::seal::seal_of(
                seed,
                crate::xhci::debt_words(
                    snapshot_root,
                    root,
                    Some(lease),
                    phase,
                    class,
                ),
            )
            &&& later != phase ==> sealed != crate::seal::seal_of(
                seed,
                crate::xhci::debt_words(
                    snapshot_root,
                    authorization_root,
                    Some(lease),
                    later,
                    class,
                ),
            )
            &&& kind != class ==> sealed != crate::seal::seal_of(
                seed,
                crate::xhci::debt_words(
                    snapshot_root,
                    authorization_root,
                    Some(lease),
                    phase,
                    kind,
                ),
            )
            &&& window.physical_base != lease.physical_base
                ==> sealed != crate::seal::seal_of(
                seed,
                crate::xhci::debt_words(
                    snapshot_root,
                    authorization_root,
                    Some((Bar0ApertureLease { physical_base: window.physical_base, ..lease })),
                    phase,
                    class,
                ),
            )
            &&& window.length != lease.length ==> sealed != crate::seal::seal_of(
                seed,
                crate::xhci::debt_words(
                    snapshot_root,
                    authorization_root,
                    Some((Bar0ApertureLease { length: window.length, ..lease })),
                    phase,
                    class,
                ),
            )
        }),
{
    let words = crate::xhci::debt_words(
        snapshot_root,
        authorization_root,
        Some(lease),
        phase,
        class,
    );
    if root != snapshot_root {
        crate::laws::seal::law_one_changed_word_changes_the_root(
            seed,
            words,
            crate::xhci::debt_words(
                    root,
                    authorization_root,
                    Some(lease),
                    phase,
                    class,
                ),
            0,
        );
    }
    if root != authorization_root {
        crate::laws::seal::law_one_changed_word_changes_the_root(
            seed,
            words,
            crate::xhci::debt_words(
                    snapshot_root,
                    root,
                    Some(lease),
                    phase,
                    class,
                ),
            1,
        );
    }
    if later != phase {
        crate::laws::seal::law_one_changed_word_changes_the_root(
            seed,
            words,
            crate::xhci::debt_words(
                    snapshot_root,
                    authorization_root,
                    Some(lease),
                    later,
                    class,
                ),
            2,
        );
    }
    if kind != class {
        crate::laws::seal::law_one_changed_word_changes_the_root(
            seed,
            words,
            crate::xhci::debt_words(
                    snapshot_root,
                    authorization_root,
                    Some(lease),
                    phase,
                    kind,
                ),
            3,
        );
    }
    if window.physical_base != lease.physical_base {
        crate::laws::seal::law_one_changed_word_changes_the_root(
            seed,
            words,
            crate::xhci::debt_words(
                    snapshot_root,
                    authorization_root,
                    Some((Bar0ApertureLease { physical_base: window.physical_base, ..lease })),
                    phase,
                    class,
                ),
            4,
        );
    }
    if window.length != lease.length {
        crate::laws::seal::law_one_changed_word_changes_the_root(
            seed,
            words,
            crate::xhci::debt_words(
                    snapshot_root,
                    authorization_root,
                    Some((Bar0ApertureLease { length: window.length, ..lease })),
                    phase,
                    class,
                ),
            5,
        );
    }
}

/// The root of a failed activation changes with how far it had come, how it failed
/// and whether the device was touched.
pub proof fn law_an_activation_root_covers_the_failure(
    seed: u64,
    snapshot: XhciCapabilitySnapshot,
    phase: TakeoverPhase,
    class: XhciDebtClass,
    mutated: bool,
    later: TakeoverPhase,
    kind: XhciDebtClass,
)
    ensures
        ({
            let sealed = crate::seal::seal_of(
                seed,
                crate::xhci::activation_words(
                    snapshot,
                    phase,
                    class,
                    mutated,
                ),
            );
            &&& later != phase ==> sealed != crate::seal::seal_of(
                seed,
                crate::xhci::activation_words(
                    snapshot,
                    later,
                    class,
                    mutated,
                ),
            )
            &&& kind != class ==> sealed != crate::seal::seal_of(
                seed,
                crate::xhci::activation_words(
                    snapshot,
                    phase,
                    kind,
                    mutated,
                ),
            )
            &&& sealed != crate::seal::seal_of(
                seed,
                crate::xhci::activation_words(
                    snapshot,
                    phase,
                    class,
                    !mutated,
                ),
            )
        }),
{
    let words = crate::xhci::activation_words(snapshot, phase, class, mutated);
    if later != phase {
        crate::laws::seal::law_one_changed_word_changes_the_root(
            seed,
            words,
            crate::xhci::activation_words(
                    snapshot,
                    later,
                    class,
                    mutated,
                ),
            1,
        );
    }
    if kind != class {
        crate::laws::seal::law_one_changed_word_changes_the_root(
            seed,
            words,
            crate::xhci::activation_words(
                    snapshot,
                    phase,
                    kind,
                    mutated,
                ),
            2,
        );
    }
        crate::laws::seal::law_one_changed_word_changes_the_root(
            seed,
            words,
            crate::xhci::activation_words(
                    snapshot,
                    phase,
                    class,
                    !mutated,
                ),
            3,
        );
}

/// The root of a resolution changes with every part of the lease that it grants.
pub proof fn law_a_resolution_root_covers_the_lease(
    seed: u64,
    fingerprint_root: u64,
    decision_root: u64,
    one: DriverLease,
    other: DriverLease,
    strategy: DriverStrategy,
    attempts: Seq<AttemptRecord>,
    retained: bool,
)
    ensures
        ({
            let sealed = crate::seal::seal_of(
                seed,
                crate::drivernet::dispatch::resolution_words(
                    fingerprint_root,
                    decision_root,
                    one,
                    strategy,
                    attempts,
                    retained,
                ),
            );
            &&& one.handle != other.handle ==> sealed != crate::seal::seal_of(
                seed,
                crate::drivernet::dispatch::resolution_words(
                    fingerprint_root,
                    decision_root,
                    (DriverLease { handle: other.handle, ..one }),
                    strategy,
                    attempts,
                    retained,
                ),
            )
            &&& one.generation != other.generation ==> sealed != crate::seal::seal_of(
                seed,
                crate::drivernet::dispatch::resolution_words(
                    fingerprint_root,
                    decision_root,
                    (DriverLease { generation: other.generation, ..one }),
                    strategy,
                    attempts,
                    retained,
                ),
            )
            &&& one.activation_root != other.activation_root
                ==> sealed != crate::seal::seal_of(
                seed,
                crate::drivernet::dispatch::resolution_words(
                    fingerprint_root,
                    decision_root,
                    (DriverLease { activation_root: other.activation_root, ..one }),
                    strategy,
                    attempts,
                    retained,
                ),
            )
            &&& one.health_root != other.health_root ==> sealed != crate::seal::seal_of(
                seed,
                crate::drivernet::dispatch::resolution_words(
                    fingerprint_root,
                    decision_root,
                    (DriverLease { health_root: other.health_root, ..one }),
                    strategy,
                    attempts,
                    retained,
                ),
            )
            &&& one.framebuffer_object != other.framebuffer_object
                ==> sealed != crate::seal::seal_of(
                seed,
                crate::drivernet::dispatch::resolution_words(
                    fingerprint_root,
                    decision_root,
                    (DriverLease { framebuffer_object: other.framebuffer_object, ..one }),
                    strategy,
                    attempts,
                    retained,
                ),
            )
            &&& one.committed_tick != other.committed_tick
                ==> sealed != crate::seal::seal_of(
                seed,
                crate::drivernet::dispatch::resolution_words(
                    fingerprint_root,
                    decision_root,
                    (DriverLease { committed_tick: other.committed_tick, ..one }),
                    strategy,
                    attempts,
                    retained,
                ),
            )
        }),
{
    let words = crate::drivernet::dispatch::resolution_words(
        fingerprint_root,
        decision_root,
        one,
        strategy,
        attempts,
        retained,
    );
    if one.handle != other.handle {
        crate::laws::seal::law_one_changed_word_changes_the_root(
            seed,
            words,
            crate::drivernet::dispatch::resolution_words(
                    fingerprint_root,
                    decision_root,
                    (DriverLease { handle: other.handle, ..one }),
                    strategy,
                    attempts,
                    retained,
                ),
            3,
        );
    }
    if one.generation != other.generation {
        crate::laws::seal::law_one_changed_word_changes_the_root(
            seed,
            words,
            crate::drivernet::dispatch::resolution_words(
                    fingerprint_root,
                    decision_root,
                    (DriverLease { generation: other.generation, ..one }),
                    strategy,
                    attempts,
                    retained,
                ),
            4,
        );
    }
    if one.activation_root != other.activation_root {
        crate::laws::seal::law_one_changed_word_changes_the_root(
            seed,
            words,
            crate::drivernet::dispatch::resolution_words(
                    fingerprint_root,
                    decision_root,
                    (DriverLease { activation_root: other.activation_root, ..one }),
                    strategy,
                    attempts,
                    retained,
                ),
            5,
        );
    }
    if one.health_root != other.health_root {
        crate::laws::seal::law_one_changed_word_changes_the_root(
            seed,
            words,
            crate::drivernet::dispatch::resolution_words(
                    fingerprint_root,
                    decision_root,
                    (DriverLease { health_root: other.health_root, ..one }),
                    strategy,
                    attempts,
                    retained,
                ),
            6,
        );
    }
    if one.framebuffer_object != other.framebuffer_object {
        crate::laws::seal::law_one_changed_word_changes_the_root(
            seed,
            words,
            crate::drivernet::dispatch::resolution_words(
                    fingerprint_root,
                    decision_root,
                    (DriverLease { framebuffer_object: other.framebuffer_object, ..one }),
                    strategy,
                    attempts,
                    retained,
                ),
            7,
        );
    }
    if one.committed_tick != other.committed_tick {
        crate::laws::seal::law_one_changed_word_changes_the_root(
            seed,
            words,
            crate::drivernet::dispatch::resolution_words(
                    fingerprint_root,
                    decision_root,
                    (DriverLease { committed_tick: other.committed_tick, ..one }),
                    strategy,
                    attempts,
                    retained,
                ),
            8,
        );
    }
}

/// The root of a resolution changes with the device, the decision, the strategy and
/// whether the firmware's display is kept.
pub proof fn law_a_resolution_root_covers_what_was_decided(
    seed: u64,
    fingerprint_root: u64,
    decision_root: u64,
    lease: DriverLease,
    strategy: DriverStrategy,
    attempts: Seq<AttemptRecord>,
    retained: bool,
    root: u64,
    active: DriverStrategy,
)
    ensures
        ({
            let sealed = crate::seal::seal_of(
                seed,
                crate::drivernet::dispatch::resolution_words(
                    fingerprint_root,
                    decision_root,
                    lease,
                    strategy,
                    attempts,
                    retained,
                ),
            );
            &&& root != fingerprint_root ==> sealed != crate::seal::seal_of(
                seed,
                crate::drivernet::dispatch::resolution_words(
                    root,
                    decision_root,
                    lease,
                    strategy,
                    attempts,
                    retained,
                ),
            )
            &&& root != decision_root ==> sealed != crate::seal::seal_of(
                seed,
                crate::drivernet::dispatch::resolution_words(
                    fingerprint_root,
                    root,
                    lease,
                    strategy,
                    attempts,
                    retained,
                ),
            )
            &&& active != strategy ==> sealed != crate::seal::seal_of(
                seed,
                crate::drivernet::dispatch::resolution_words(
                    fingerprint_root,
                    decision_root,
                    lease,
                    active,
                    attempts,
                    retained,
                ),
            )
            &&& sealed != crate::seal::seal_of(
                seed,
                crate::drivernet::dispatch::resolution_words(
                    fingerprint_root,
                    decision_root,
                    lease,
                    strategy,
                    attempts,
                    !retained,
                ),
            )
        }),
{
    let words = crate::drivernet::dispatch::resolution_words(
        fingerprint_root,
        decision_root,
        lease,
        strategy,
        attempts,
        retained,
    );
    if root != fingerprint_root {
        crate::laws::seal::law_one_changed_word_changes_the_root(
            seed,
            words,
            crate::drivernet::dispatch::resolution_words(
                    root,
                    decision_root,
                    lease,
                    strategy,
                    attempts,
                    retained,
                ),
            0,
        );
    }
    if root != decision_root {
        crate::laws::seal::law_one_changed_word_changes_the_root(
            seed,
            words,
            crate::drivernet::dispatch::resolution_words(
                    fingerprint_root,
                    root,
                    lease,
                    strategy,
                    attempts,
                    retained,
                ),
            1,
        );
    }
    if active != strategy {
        crate::laws::seal::law_one_changed_word_changes_the_root(
            seed,
            words,
            crate::drivernet::dispatch::resolution_words(
                    fingerprint_root,
                    decision_root,
                    lease,
                    active,
                    attempts,
                    retained,
                ),
            2,
        );
    }
        crate::laws::seal::law_one_changed_word_changes_the_root(
            seed,
            words,
            crate::drivernet::dispatch::resolution_words(
                    fingerprint_root,
                    decision_root,
                    lease,
                    strategy,
                    attempts,
                    !retained,
                ),
            10,
        );
}

/// The root of a walk changes with the aperture, the first offset and the number of
/// ports.
pub proof fn law_a_walk_root_covers_where_it_began(
    seed: u64,
    aperture: Bar0ApertureLease,
    window: Bar0ApertureLease,
    initial_offset: u32,
    maximum_ports: u8,
    offset: u32,
    ports: u8,
)
    ensures
        ({
            let sealed = crate::seal::seal_of(
                seed,
                crate::xhci_protocol::walk_words(
                    aperture,
                    initial_offset,
                    maximum_ports,
                ),
            );
            &&& window.physical_base != aperture.physical_base
                ==> sealed != crate::seal::seal_of(
                seed,
                crate::xhci_protocol::walk_words(
                    (Bar0ApertureLease { physical_base: window.physical_base, ..aperture }),
                    initial_offset,
                    maximum_ports,
                ),
            )
            &&& window.length != aperture.length ==> sealed != crate::seal::seal_of(
                seed,
                crate::xhci_protocol::walk_words(
                    (Bar0ApertureLease { length: window.length, ..aperture }),
                    initial_offset,
                    maximum_ports,
                ),
            )
            &&& offset != initial_offset ==> sealed != crate::seal::seal_of(
                seed,
                crate::xhci_protocol::walk_words(
                    aperture,
                    offset,
                    maximum_ports,
                ),
            )
            &&& ports != maximum_ports ==> sealed != crate::seal::seal_of(
                seed,
                crate::xhci_protocol::walk_words(
                    aperture,
                    initial_offset,
                    ports,
                ),
            )
        }),
{
    let words = crate::xhci_protocol::walk_words(aperture, initial_offset, maximum_ports);
    if window.physical_base != aperture.physical_base {
        crate::laws::seal::law_one_changed_word_changes_the_root(
            seed,
            words,
            crate::xhci_protocol::walk_words(
                    (Bar0ApertureLease { physical_base: window.physical_base, ..aperture }),
                    initial_offset,
                    maximum_ports,
                ),
            0,
        );
    }
    if window.length != aperture.length {
        crate::laws::seal::law_one_changed_word_changes_the_root(
            seed,
            words,
            crate::xhci_protocol::walk_words(
                    (Bar0ApertureLease { length: window.length, ..aperture }),
                    initial_offset,
                    maximum_ports,
                ),
            1,
        );
    }
    if offset != initial_offset {
        crate::laws::seal::law_one_changed_word_changes_the_root(
            seed,
            words,
            crate::xhci_protocol::walk_words(
                    aperture,
                    offset,
                    maximum_ports,
                ),
            2,
        );
    }
    if ports != maximum_ports {
        crate::laws::seal::law_one_changed_word_changes_the_root(
            seed,
            words,
            crate::xhci_protocol::walk_words(
                    aperture,
                    initial_offset,
                    ports,
                ),
            3,
        );
    }
}

/// A display is sealed over where its memory lies, its shape and how often it is
/// held.
pub proof fn law_a_display_is_sealed_over_its_shape(
    object: u64,
    generation: u32,
    evidence: FirmwareFramebufferEvidence,
    retain_count: u32,
)
    ensures
        ({
            let words = crate::firmware_display::display_words(
                object,
                generation,
                evidence,
                retain_count,
            );
            &&& words.len() == 7
            &&& words[0] == object
            &&& words[1] == generation
            &&& words[2] == evidence.physical_address
            &&& words[3] == evidence.byte_length
            &&& words[4] == evidence.width + evidence.height * 0x1_0000_0000
            &&& words[5] == evidence.pitch + evidence.format * 0x1_0000_0000
            &&& words[6] == retain_count
        }),
{
    crate::bits::lemma_joined(evidence.height, evidence.width);
    crate::bits::lemma_joined(evidence.format, evidence.pitch);
}

/// A survey is sealed over every port's number and register, in their order.
pub proof fn law_a_survey_is_sealed_over_every_port(
    root: u64,
    observed: Seq<XhciPortObservation>,
    i: int,
)
    requires
        0 <= i < observed.len(),
    ensures
        ({
            let words = crate::xhci_ports::survey_words(root, observed);
            &&& words.len() == 1 + 2 * observed.len()
            &&& words[0] == root
            &&& words[1 + 2 * i] == observed[i].port_id
            &&& words[2 + 2 * i] == observed[i].portsc
        }),
    decreases observed.len(),
{
    reveal_with_fuel(crate::xhci_ports::survey_words, 2);
    let rest = observed.drop_last();
    if rest.len() > 0 {
        law_a_survey_is_sealed_over_every_port(
            root,
            rest,
            if i < rest.len() {
                i
            } else {
                0
            },
        );
    }
}

/// A probe is sealed over every observation's root, evidence and time.
pub proof fn law_a_probe_is_sealed_over_every_observation(
    observations: Seq<ProbeObservation>,
    upto: int,
    i: int,
)
    requires
        0 <= i < upto <= observations.len(),
    ensures
        ({
            let words = crate::drivernet::dispatch::observation_words(observations, upto);
            &&& words.len() == 1 + 3 * upto
            &&& words[1 + 3 * i] == observations[i].root
            &&& words[2 + 3 * i] == observations[i].evidence_bit
            &&& words[3 + 3 * i] == observations[i].tick
        }),
    decreases upto,
{
    reveal_with_fuel(crate::drivernet::dispatch::observation_words, 2);
    if upto > 1 {
        law_a_probe_is_sealed_over_every_observation(
            observations,
            upto - 1,
            if i < upto - 1 {
                i
            } else {
                0
            },
        );
    }
}

/// An arena is sealed over its window, its shape and the root of every region.
pub proof fn law_an_arena_is_sealed_over_every_region(
    window: IdentityDmaWindow,
    scratchpad_count: u16,
    wide: bool,
    records: Seq<XhciDmaRegionRecord>,
    i: int,
)
    requires
        0 <= i < records.len(),
    ensures
        ({
            let words = crate::xhci_dma::arena_words(window, scratchpad_count, wide, records);
            &&& words.len() == 4 + records.len()
            &&& words[0] == window.proof_root
            &&& words[1] == window.generation
            &&& words[2] == scratchpad_count
            &&& words[3] == 1 <==> wide
            &&& words[4 + i] == records[i].region_root
        }),
    decreases records.len(),
{
    reveal_with_fuel(crate::xhci_dma::arena_words, 2);
    let rest = records.drop_last();
    if rest.len() > 0 {
        law_an_arena_is_sealed_over_every_region(
            window,
            scratchpad_count,
            wide,
            rest,
            if i < rest.len() {
                i
            } else {
                0
            },
        );
    }
}

/// A binding is sealed over every region that is bound: where the device sees it,
/// where it lies and how many pages it has.
pub proof fn law_a_binding_is_sealed_over_every_region(
    generation: u32,
    records: Seq<Option<XhciDmaRegionRecord>>,
    i: int,
)
    requires
        0 <= i < records.len(),
        forall|k: int| 0 <= k < records.len() ==> (#[trigger] records[k]) is Some,
    ensures
        ({
            let words = crate::xhci_iommu::binding_words(generation, records);
            &&& words.len() == 1 + 3 * records.len()
            &&& words[0] == generation
            &&& words[1 + 3 * i] == records[i]->0.device_address_start
            &&& words[2 + 3 * i] == records[i]->0.physical_start
            &&& words[3 + 3 * i] == records[i]->0.page_count
        }),
    decreases records.len(),
{
    let rest = records.drop_last();
    reveal_with_fuel(crate::xhci_iommu::binding_words, 2);
    assert(records.last() is Some);
    assert(records.last() == records[records.len() - 1]);
    assert forall|k: int| 0 <= k < rest.len() implies (#[trigger] rest[k]) is Some by {
        assert(rest[k] == records[k]);
    }
    if rest.len() > 0 {
        law_a_binding_is_sealed_over_every_region(
            generation,
            rest,
            if i < rest.len() {
                i
            } else {
                0
            },
        );
    }
}

/// Speeds are sealed with where each lies: sixteen bytes behind the protocol, one
/// word after the other.
pub proof fn law_speeds_are_sealed_with_their_places(offset: u32, speeds: Seq<u32>, i: int)
    requires
        0 <= i < speeds.len(),
        offset + 16 + 4 * speeds.len() <= u32::MAX,
    ensures
        ({
            let words = crate::xhci_protocol::speed_words(offset, speeds);
            &&& words.len() == 1 + 2 * speeds.len()
            &&& words[0] == offset
            &&& words[1 + 2 * i] == offset + 16 + 4 * i
            &&& words[2 + 2 * i] == speeds[i]
        }),
    decreases speeds.len(),
{
    reveal_with_fuel(crate::xhci_protocol::speed_words, 2);
    let rest = speeds.drop_last();
    if rest.len() > 0 {
        law_speeds_are_sealed_with_their_places(
            offset,
            rest,
            if i < rest.len() {
                i
            } else {
                0
            },
        );
    }
}

/// A decision is sealed over what it rests on and over every ranked candidate.
pub proof fn law_a_decision_is_sealed_over_its_ranking(
    decision: OracleDecision,
    upto: int,
    i: int,
)
    requires
        0 <= i < upto,
    ensures
        ({
            let words = crate::drivernet::model::decision_words(decision, upto);
            &&& words.len() == 9 + 5 * upto
            &&& words[0] == decision.fingerprint_root
            &&& words[1] == decision.feature_root
            &&& words[2] == decision.model_schema
            &&& words[3] == decision.model_corpus_root
            &&& words[4] == decision.model_root
            &&& words[6] == decision.confidence_q16
            &&& words[7] == decision.reasons
            &&& words[8] == decision.length
            &&& words[9 + 5 * i] == decision.ranked[i].strategy.index()
            &&& words[12 + 5 * i] == 1 <==> decision.ranked[i].admissible
            &&& words[13 + 5 * i] == decision.ranked[i].gate_reason
        }),
    decreases upto,
{
    if upto > 1 {
        law_a_decision_is_sealed_over_its_ranking(
            decision,
            upto - 1,
            if i < upto - 1 {
                i
            } else {
                0
            },
        );
    } else {
        assert(crate::drivernet::model::decision_words(decision, 0).len() == 9);
    }
}

} // verus!
