//! Virtual SVGA adapters.

use crate::drivernet::model::DriverStrategy;
use crate::drivernet::fingerprint::{TOPOLOGY_VIRTUAL_MACHINE};
use crate::drivernet::registry::{
    PROBE_EVIDENCE_DISPLAY_ENGINE, PROBE_EVIDENCE_HEALTH, PROBE_EVIDENCE_IDENTITY,
    PROBE_EVIDENCE_TRANSPORT, ProbeProgram, ProbeSemantic, SHIM_FLAG_PRESERVE_FIRMWARE_DISPLAY,
    SHIM_FLAG_READ_ONLY_PROBE, SHIM_FLAG_SUPPORTS_ROLLBACK, SHIM_FLAG_VIRTUAL_DEVICE,
    ShimDescriptor, VendorGate, empty_steps, step,
};
use vstd::prelude::*;

verus! {

/// Whether a descriptor is that of this strategy.
pub open spec fn describes(descriptor: ShimDescriptor) -> bool {
    &&& descriptor.strategy == DriverStrategy::VirtualSvga
    &&& descriptor.name@ == "virtual-svga"@
    &&& descriptor.abi_version == 2
    &&& descriptor.vendor_gate == (VendorGate::any())
    &&& descriptor.required_topology == TOPOLOGY_VIRTUAL_MACHINE
    &&& descriptor.forbidden_topology == 0
    &&& descriptor.minimum_confidence_q16 == 4_000
    &&& descriptor.flags == SHIM_FLAG_PRESERVE_FIRMWARE_DISPLAY | SHIM_FLAG_READ_ONLY_PROBE
        | SHIM_FLAG_SUPPORTS_ROLLBACK | SHIM_FLAG_VIRTUAL_DEVICE
    &&& descriptor.activation_budget_ticks == 8_192
    &&& descriptor.health_budget_ticks == 2_048
    &&& descriptor.program.required_evidence == PROBE_EVIDENCE_IDENTITY
        | PROBE_EVIDENCE_TRANSPORT | PROBE_EVIDENCE_DISPLAY_ENGINE | PROBE_EVIDENCE_HEALTH
    &&& descriptor.program.maximum_total_ticks == 1_024
    &&& crate::drivernet::registry::steps_are(
        descriptor.program,
        seq![
            step(ProbeSemantic::ValidateIdentity, PROBE_EVIDENCE_IDENTITY, 32, 0, 0),
            step(ProbeSemantic::VerifyParavirtualCapability, PROBE_EVIDENCE_TRANSPORT, 256, 1, 0),
            step(ProbeSemantic::VerifyDisplayEngine, PROBE_EVIDENCE_DISPLAY_ENGINE, 256, 1, 0),
            step(ProbeSemantic::EstablishHealthBaseline, PROBE_EVIDENCE_HEALTH, 256, 1, 0),
        ],
    )
}

pub fn descriptor() -> (descriptor: ShimDescriptor)
    ensures
        describes(descriptor),
{
    let mut steps = empty_steps();
    steps[0] = step(ProbeSemantic::ValidateIdentity, PROBE_EVIDENCE_IDENTITY, 32, 0, 0);
    steps[1] = step(
        ProbeSemantic::VerifyParavirtualCapability,
        PROBE_EVIDENCE_TRANSPORT,
        256,
        1,
        0,
    );
    steps[2] = step(ProbeSemantic::VerifyDisplayEngine, PROBE_EVIDENCE_DISPLAY_ENGINE, 256, 1, 0);
    steps[3] = step(ProbeSemantic::EstablishHealthBaseline, PROBE_EVIDENCE_HEALTH, 256, 1, 0);
    ShimDescriptor {
        strategy: DriverStrategy::VirtualSvga,
        name: "virtual-svga",
        abi_version: 2,
        vendor_gate: VendorGate::any(),
        required_topology: TOPOLOGY_VIRTUAL_MACHINE,
        forbidden_topology: 0,
        minimum_confidence_q16: 4_000,
        flags: SHIM_FLAG_PRESERVE_FIRMWARE_DISPLAY | SHIM_FLAG_READ_ONLY_PROBE
        | SHIM_FLAG_SUPPORTS_ROLLBACK | SHIM_FLAG_VIRTUAL_DEVICE,
        activation_budget_ticks: 8_192,
        health_budget_ticks: 2_048,
        program: ProbeProgram::new(
            steps,
            4,
            PROBE_EVIDENCE_IDENTITY | PROBE_EVIDENCE_TRANSPORT | PROBE_EVIDENCE_DISPLAY_ENGINE
        | PROBE_EVIDENCE_HEALTH,
            1_024,
        ),
    }
}

pub proof fn lemma_described(descriptor: ShimDescriptor)
    requires
        describes(descriptor),
    ensures
        descriptor.well_described(),
{
    reveal_strlit("virtual-svga");
    crate::drivernet::registry::lemma_demands_are_never_empty();
}

} // verus!
