//! The framebuffer that firmware left behind.

use crate::drivernet::model::DriverStrategy;
use crate::drivernet::registry::{
    PROBE_EVIDENCE_FIRMWARE_LEASE, PROBE_EVIDENCE_HEALTH, ProbeProgram, ProbeSemantic,
    SHIM_FLAG_READ_ONLY_PROBE, SHIM_FLAG_SUPPORTS_ROLLBACK, SHIM_FLAG_TERMINAL_FALLBACK,
    ShimDescriptor, VendorGate, empty_steps, firmware_required_topology, step,
};
use vstd::prelude::*;

verus! {

/// Whether a descriptor is that of this strategy.
pub open spec fn describes(descriptor: ShimDescriptor) -> bool {
    &&& descriptor.strategy == DriverStrategy::FirmwareFramebuffer
    &&& descriptor.name@ == "firmware-framebuffer"@
    &&& descriptor.abi_version == 2
    &&& descriptor.vendor_gate == (VendorGate::any())
    &&& descriptor.required_topology == firmware_required_topology()
    &&& descriptor.forbidden_topology == 0
    &&& descriptor.minimum_confidence_q16 == 0
    &&& descriptor.flags == SHIM_FLAG_READ_ONLY_PROBE | SHIM_FLAG_SUPPORTS_ROLLBACK
        | SHIM_FLAG_TERMINAL_FALLBACK
    &&& descriptor.activation_budget_ticks == 1_024
    &&& descriptor.health_budget_ticks == 512
    &&& descriptor.program.required_evidence == PROBE_EVIDENCE_FIRMWARE_LEASE
        | PROBE_EVIDENCE_HEALTH
    &&& descriptor.program.maximum_total_ticks == 256
    &&& crate::drivernet::registry::steps_are(
        descriptor.program,
        seq![
            step(ProbeSemantic::VerifyFirmwareLease, PROBE_EVIDENCE_FIRMWARE_LEASE, 64, 0, 0),
            step(ProbeSemantic::EstablishHealthBaseline, PROBE_EVIDENCE_HEALTH, 64, 0, 0),
        ],
    )
}

pub fn descriptor() -> (descriptor: ShimDescriptor)
    ensures
        describes(descriptor),
{
    let mut steps = empty_steps();
    steps[0] = step(ProbeSemantic::VerifyFirmwareLease, PROBE_EVIDENCE_FIRMWARE_LEASE, 64, 0, 0);
    steps[1] = step(ProbeSemantic::EstablishHealthBaseline, PROBE_EVIDENCE_HEALTH, 64, 0, 0);
    ShimDescriptor {
        strategy: DriverStrategy::FirmwareFramebuffer,
        name: "firmware-framebuffer",
        abi_version: 2,
        vendor_gate: VendorGate::any(),
        required_topology: firmware_required_topology(),
        forbidden_topology: 0,
        minimum_confidence_q16: 0,
        flags: SHIM_FLAG_READ_ONLY_PROBE | SHIM_FLAG_SUPPORTS_ROLLBACK
        | SHIM_FLAG_TERMINAL_FALLBACK,
        activation_budget_ticks: 1_024,
        health_budget_ticks: 512,
        program: ProbeProgram::new(
            steps,
            2,
            PROBE_EVIDENCE_FIRMWARE_LEASE | PROBE_EVIDENCE_HEALTH,
            256,
        ),
    }
}

pub proof fn lemma_described(descriptor: ShimDescriptor)
    requires
        describes(descriptor),
    ensures
        descriptor.well_described(),
{
    reveal_strlit("firmware-framebuffer");
    crate::drivernet::registry::lemma_demands_are_never_empty();
}

} // verus!
