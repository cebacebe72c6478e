//! The plain values that the Hermes transport and its personalities exchange.

use vstd::prelude::*;

verus! {

pub const HERMES_BOOT_STAGE_FIRMWARE: u32 = 1;

pub const HERMES_BOOT_STAGE_QUEUES: u32 = 2;

pub const HERMES_BOOT_STAGE_IGNITE: u32 = 3;

pub const HERMES_BOOT_STAGE_NEGOTIATE: u32 = 4;

pub const HERMES_EVENT_REPLY: u32 = 1;

pub const HERMES_EVENT_ASYNC: u32 = 2;

pub const HERMES_EVENT_FAULT: u32 = 3;

pub const HERMES_MAX_NORMALIZED_PAYLOAD: usize = 256;

pub const HERMES_PROFILE_BYTES: u32 = 192;

pub const HERMES_INSTRUCTION_BYTES: u32 = 80;

pub const HERMES_EVENT_BYTES: u32 = 368;

#[derive(Clone, Copy, Debug, PartialEq, Eq, Structural)]
pub struct HermesPciIdentity {
    pub segment: u16,
    pub bus: u8,
    pub slot: u8,
    pub function: u8,
    pub revision: u8,
    pub vendor_id: u16,
    pub device_id: u16,
    pub subsystem_vendor_id: u16,
    pub subsystem_device_id: u16,
    pub class_code: u8,
    pub subclass: u8,
    pub programming_interface: u8,
}

/// What was measured of a device before any personality spoke to it.
#[derive(Clone, Copy, Debug, PartialEq, Eq)]
pub struct HermesProbeEvidence {
    pub bar_lengths: [u64; 6],
    pub bootrom_revision: u32,
    pub architecture_hint: u32,
    pub observed_features: u64,
}

impl HermesProbeEvidence {
    #[verifier::allow_in_spec]
    pub fn empty() -> HermesProbeEvidence
        returns
            (HermesProbeEvidence {
                bar_lengths: [0u64, 0u64, 0u64, 0u64, 0u64, 0u64],
                bootrom_revision: 0,
                architecture_hint: 0,
                observed_features: 0,
            }),
    {
        HermesProbeEvidence {
            bar_lengths: [0u64, 0u64, 0u64, 0u64, 0u64, 0u64],
            bootrom_revision: 0,
            architecture_hint: 0,
            observed_features: 0,
        }
    }
}

/// How a personality talks to its device.
#[derive(Clone, Copy, Debug, PartialEq, Eq)]
pub struct HermesTransportProfile {
    pub struct_size: u32,
    pub profile_version: u32,
    pub personality_id: u64,
    pub protocol_family: u32,
    pub wire_major: u16,
    pub wire_minor_minimum: u16,
    pub wire_minor_maximum: u16,
    pub command_slot_bytes: u16,
    pub event_slot_bytes: u16,
    pub command_depth: u16,
    pub event_depth: u16,
    pub control_bar: u8,
    pub doorbell_bar: u8,
    pub required_bar_lengths: [u64; 6],
    pub firmware_minimum_bytes: u32,
    pub firmware_maximum_bytes: u32,
    pub firmware_alignment: u32,
    pub command_producer_offset: u32,
    pub command_consumer_offset: u32,
    pub event_producer_offset: u32,
    pub event_consumer_offset: u32,
    pub command_doorbell_offset: u32,
    pub event_doorbell_offset: u32,
    pub status_offset: u32,
    pub ready_mask: u32,
    pub ready_value: u32,
    pub fault_mask: u32,
    pub maximum_wire_bytes: u32,
    pub maximum_boot_steps: u32,
    pub required_features: u64,
    pub optional_features: u64,
    pub minimum_completions_per_window: u16,
    pub maximum_admissions_per_window: u16,
    pub maximum_admission_backlog: u16,
    pub service_window_ticks: u64,
    pub service_latency_ticks: u64,
}

impl HermesTransportProfile {
    /// A profile of the current version that says nothing yet.
    pub fn empty() -> (profile: HermesTransportProfile)
        ensures
            profile == (HermesTransportProfile {
                struct_size: HERMES_PROFILE_BYTES,
                profile_version: 1,
                personality_id: 0,
                protocol_family: 0,
                wire_major: 0,
                wire_minor_minimum: 0,
                wire_minor_maximum: 0,
                command_slot_bytes: 0,
                event_slot_bytes: 0,
                command_depth: 0,
                event_depth: 0,
                control_bar: 0,
                doorbell_bar: 0,
                required_bar_lengths: [0u64, 0u64, 0u64, 0u64, 0u64, 0u64],
                firmware_minimum_bytes: 0,
                firmware_maximum_bytes: 0,
                firmware_alignment: 0,
                command_producer_offset: 0,
                command_consumer_offset: 0,
                event_producer_offset: 0,
                event_consumer_offset: 0,
                command_doorbell_offset: 0,
                event_doorbell_offset: 0,
                status_offset: 0,
                ready_mask: 0,
                ready_value: 0,
                fault_mask: 0,
                maximum_wire_bytes: 0,
                maximum_boot_steps: 0,
                required_features: 0,
                optional_features: 0,
                minimum_completions_per_window: 0,
                maximum_admissions_per_window: 0,
                maximum_admission_backlog: 0,
                service_window_ticks: 0,
                service_latency_ticks: 0,
            }),
    {
        HermesTransportProfile {
            struct_size: HERMES_PROFILE_BYTES,
            profile_version: 1,
            personality_id: 0,
            protocol_family: 0,
            wire_major: 0,
            wire_minor_minimum: 0,
            wire_minor_maximum: 0,
            command_slot_bytes: 0,
            event_slot_bytes: 0,
            command_depth: 0,
            event_depth: 0,
            control_bar: 0,
            doorbell_bar: 0,
            required_bar_lengths: [0u64, 0u64, 0u64, 0u64, 0u64, 0u64],
            firmware_minimum_bytes: 0,
            firmware_maximum_bytes: 0,
            firmware_alignment: 0,
            command_producer_offset: 0,
            command_consumer_offset: 0,
            event_producer_offset: 0,
            event_consumer_offset: 0,
            command_doorbell_offset: 0,
            event_doorbell_offset: 0,
            status_offset: 0,
            ready_mask: 0,
            ready_value: 0,
            fault_mask: 0,
            maximum_wire_bytes: 0,
            maximum_boot_steps: 0,
            required_features: 0,
            optional_features: 0,
            minimum_completions_per_window: 0,
            maximum_admissions_per_window: 0,
            maximum_admission_backlog: 0,
            service_window_ticks: 0,
            service_latency_ticks: 0,
        }
    }
}

/// One step of a personality's boot.
#[derive(Clone, Copy, Debug, PartialEq, Eq)]
pub struct HermesBootInstruction {
    pub instruction_version: u32,
    pub struct_size: u32,
    pub stage: u32,
    pub opcode: u32,
    pub words: [u64; 8],
}

/// A command before a personality puts it on the wire.
#[derive(Clone, Copy, Debug, PartialEq, Eq)]
pub struct HermesNormalizedCommand {
    pub epoch: u32,
    pub sequence: u32,
    pub opcode: u32,
    pub flags: u32,
    pub object: u64,
    pub deadline_tick: u64,
    pub arguments: [u64; 8],
    pub payload_length: u16,
    pub payload: [u8; 256],
}

/// What a command says.
pub struct CommandShape {
    pub epoch: u32,
    pub sequence: u32,
    pub opcode: u32,
    pub flags: u32,
    pub object: u64,
    pub deadline_tick: u64,
    pub arguments: Seq<u64>,
    pub payload_length: u16,
    pub payload: Seq<u8>,
}

impl HermesNormalizedCommand {
    pub open spec fn shape(self) -> CommandShape {
        CommandShape {
            epoch: self.epoch,
            sequence: self.sequence,
            opcode: self.opcode,
            flags: self.flags,
            object: self.object,
            deadline_tick: self.deadline_tick,
            arguments: self.arguments@,
            payload_length: self.payload_length,
            payload: self.payload@,
        }
    }

    /// A command with a payload, padded with zeroes.
    pub fn build(
        correlation: (u32, u32),
        opcode: u32,
        flags: u32,
        object: u64,
        arguments: [u64; 8],
        payload: &[u8],
        deadline_tick: u64,
    ) -> (command: HermesNormalizedCommand)
        requires
            payload@.len() <= HERMES_MAX_NORMALIZED_PAYLOAD,
        ensures
            command.shape() == shape_with(
                correlation,
                opcode,
                flags,
                object,
                arguments@,
                payload@,
                deadline_tick,
            ),
    {
        let mut bytes: [u8; 256] = [0u8;256];
        let mut index: usize = 0;
        while index < payload.len()
            invariant
                index <= payload@.len() <= 256,
                bytes@ =~= padded(payload@.take(index as int)),
            decreases payload@.len() - index,
        {
            bytes[index] = payload[index];
            index = index + 1;
        }
        assert(payload@.take(index as int) =~= payload@);
        HermesNormalizedCommand {
            epoch: correlation.0,
            sequence: correlation.1,
            opcode,
            flags,
            object,
            deadline_tick,
            arguments,
            payload_length: payload.len() as u16,
            payload: bytes,
        }
    }
}

/// A payload in its full room.
pub open spec fn padded(payload: Seq<u8>) -> Seq<u8> {
    Seq::new(
        256,
        |i: int|
            if i < payload.len() {
                payload[i]
            } else {
                0u8
            },
    )
}

/// What a command with these parts says.
pub open spec fn shape_with(
    correlation: (u32, u32),
    opcode: u32,
    flags: u32,
    object: u64,
    arguments: Seq<u64>,
    payload: Seq<u8>,
    deadline_tick: u64,
) -> CommandShape {
    CommandShape {
        epoch: correlation.0,
        sequence: correlation.1,
        opcode,
        flags,
        object,
        deadline_tick,
        arguments,
        payload_length: payload.len() as u16,
        payload: padded(payload),
    }
}

/// An event as a personality took it off the wire.
#[derive(Clone, Copy, Debug, PartialEq, Eq)]
pub struct HermesNormalizedEvent {
    pub struct_size: u32,
    pub epoch: u32,
    pub event_kind: u32,
    pub opcode: u32,
    pub status: i32,
    pub correlation_epoch: u32,
    pub correlation_sequence: u32,
    pub arguments: [u64; 8],
    pub payload_length: u16,
    pub payload: [u8; 256],
}

impl HermesNormalizedEvent {
    /// An event of the full size that says nothing yet.
    pub fn empty() -> (event: HermesNormalizedEvent)
        ensures
            event.struct_size == HERMES_EVENT_BYTES,
            event.epoch == 0,
            event.event_kind == 0,
            event.opcode == 0,
            event.status == 0,
            event.correlation_epoch == 0,
            event.correlation_sequence == 0,
            event.arguments@ == seq![0u64, 0u64, 0u64, 0u64, 0u64, 0u64, 0u64, 0u64],
            event.payload_length == 0,
            event.payload@ == padded(Seq::empty()),
    {
        let event = HermesNormalizedEvent {
            struct_size: HERMES_EVENT_BYTES,
            epoch: 0,
            event_kind: 0,
            opcode: 0,
            status: 0,
            correlation_epoch: 0,
            correlation_sequence: 0,
            arguments: [0u64;8],
            payload_length: 0,
            payload: [0u8;256],
        };
        assert(event.arguments@ =~= seq![0u64, 0u64, 0u64, 0u64, 0u64, 0u64, 0u64, 0u64]);
        assert(event.payload@ =~= padded(Seq::empty()));
        event
    }
}

/// How fast a device completes what it admits.
#[derive(Clone, Copy, Debug, PartialEq, Eq, Structural)]
pub struct HermesServiceCurve {
    pub minimum_completions_per_window: u16,
    pub maximum_admissions_per_window: u16,
    pub window_ticks: u64,
    pub latency_ticks: u64,
    pub maximum_backlog: u16,
}

/// The receipt of one admission.
#[derive(Clone, Copy, Debug, PartialEq, Eq, Structural)]
pub struct HermesAdmissionCertificate {
    pub reservation_sequence: u64,
    pub admitted_tick: u64,
    pub window_start: u64,
    pub backlog_before: u16,
    pub admitted_before: u16,
    pub deterministic_delay_ticks: u64,
    pub uncertainty_guard_ticks: u64,
    pub drift_penalty_ticks: u64,
    pub delay_bound_ticks: u64,
    pub deadline_slack_ticks: u64,
    pub curve_root: u64,
    pub calibration_root: u64,
    pub certificate_root: u64,
}

impl HermesAdmissionCertificate {
    #[verifier::allow_in_spec]
    pub fn empty() -> HermesAdmissionCertificate
        returns
            (HermesAdmissionCertificate {
                reservation_sequence: 0,
                admitted_tick: 0,
                window_start: 0,
                backlog_before: 0,
                admitted_before: 0,
                deterministic_delay_ticks: 0,
                uncertainty_guard_ticks: 0,
                drift_penalty_ticks: 0,
                delay_bound_ticks: 0,
                deadline_slack_ticks: 0,
                curve_root: 0,
                calibration_root: 0,
                certificate_root: 0,
            }),
    {
        HermesAdmissionCertificate {
            reservation_sequence: 0,
            admitted_tick: 0,
            window_start: 0,
            backlog_before: 0,
            admitted_before: 0,
            deterministic_delay_ticks: 0,
            uncertainty_guard_ticks: 0,
            drift_penalty_ticks: 0,
            delay_bound_ticks: 0,
            deadline_slack_ticks: 0,
            curve_root: 0,
            calibration_root: 0,
            certificate_root: 0,
        }
    }
}

#[derive(Clone, Copy, Debug, PartialEq, Eq, Structural)]
pub enum HermesAdmissionFault {
    InvalidCurve,
    ArithmeticOverflow,
    BacklogSaturated,
    ArrivalEnvelopeExceeded,
    DeadlineUnsafe,
    TimeRegression,
    StaleReservation,
    CorruptObservation,
}

} // verus!
