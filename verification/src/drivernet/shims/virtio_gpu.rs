//! The virtio GPU.

use crate::drivernet::model::DriverStrategy;
use crate::drivernet::fingerprint::{TOPOLOGY_VIRTUAL_MACHINE, VENDOR_VIRTIO};
use crate::drivernet::registry::{
    PROBE_EVIDENCE_COMMAND_RING, PROBE_EVIDENCE_HEALTH, PROBE_EVIDENCE_IDENTITY,
    PROBE_EVIDENCE_IOMMU_DOMAIN, PROBE_EVIDENCE_TRANSPORT, ProbeProgram, ProbeSemantic,
    SHIM_FLAG_PRESERVE_FIRMWARE_DISPLAY, SHIM_FLAG_READ_ONLY_PROBE, SHIM_FLAG_SUPPORTS_ROLLBACK,
    SHIM_FLAG_VIRTUAL_DEVICE, ShimDescriptor, VendorGate, empty_steps, step,
};
use vstd::prelude::*;

verus! {

/// Whether a descriptor is that of this strategy.
pub open spec fn describes(descriptor: ShimDescriptor) -> bool {
    &&& descriptor.strategy == DriverStrategy::VirtioGpu
    &&& descriptor.name@ == "virtio-gpu"@
    &&& descriptor.abi_version == 2
    &&& descriptor.vendor_gate == (
        VendorGate { vendor_id: VENDOR_VIRTIO, device_id_mask: 0, device_id_value: 0, }
    )
    &&& descriptor.required_topology == TOPOLOGY_VIRTUAL_MACHINE
    &&& descriptor.forbidden_topology == 0
    &&& descriptor.minimum_confidence_q16 == 4_000
    &&& descriptor.flags == SHIM_FLAG_PRESERVE_FIRMWARE_DISPLAY | SHIM_FLAG_READ_ONLY_PROBE
        | SHIM_FLAG_SUPPORTS_ROLLBACK | SHIM_FLAG_VIRTUAL_DEVICE
    &&& descriptor.activation_budget_ticks == 8_192
    &&& descriptor.health_budget_ticks == 2_048
    &&& descriptor.program.required_evidence == PROBE_EVIDENCE_IDENTITY
        | PROBE_EVIDENCE_IOMMU_DOMAIN | PROBE_EVIDENCE_TRANSPORT | PROBE_EVIDENCE_COMMAND_RING
        | PROBE_EVIDENCE_HEALTH
    &&& descriptor.program.maximum_total_ticks == 1_024
    &&& crate::drivernet::registry::steps_are(
        descriptor.program,
        seq![
            step(ProbeSemantic::ValidateIdentity, PROBE_EVIDENCE_IDENTITY, 32, 0, 0),
            step(ProbeSemantic::VerifyIommuIsolation, PROBE_EVIDENCE_IOMMU_DOMAIN, 64, 0, 0),
            step(ProbeSemantic::VerifyParavirtualCapability, PROBE_EVIDENCE_TRANSPORT, 256, 1, 0),
            step(ProbeSemantic::VerifyCommandRingGeometry, PROBE_EVIDENCE_COMMAND_RING, 256, 0, 0),
            step(ProbeSemantic::EstablishHealthBaseline, PROBE_EVIDENCE_HEALTH, 256, 1, 0),
        ],
    )
}

pub fn descriptor() -> (descriptor: ShimDescriptor)
    ensures
        describes(descriptor),
{
    let mut steps = empty_steps();
    steps[0] = step(ProbeSemantic::ValidateIdentity, PROBE_EVIDENCE_IDENTITY, 32, 0, 0);
    steps[1] = step(ProbeSemantic::VerifyIommuIsolation, PROBE_EVIDENCE_IOMMU_DOMAIN, 64, 0, 0);
    steps[2] = step(
        ProbeSemantic::VerifyParavirtualCapability,
        PROBE_EVIDENCE_TRANSPORT,
        256,
        1,
        0,
    );
    steps[3] = step(
        ProbeSemantic::VerifyCommandRingGeometry,
        PROBE_EVIDENCE_COMMAND_RING,
        256,
        0,
        0,
    );
    steps[4] = step(ProbeSemantic::EstablishHealthBaseline, PROBE_EVIDENCE_HEALTH, 256, 1, 0);
    ShimDescriptor {
        strategy: DriverStrategy::VirtioGpu,
        name: "virtio-gpu",
        abi_version: 2,
        vendor_gate: VendorGate {
            vendor_id: VENDOR_VIRTIO,
            device_id_mask: 0,
            device_id_value: 0,
        },
        required_topology: TOPOLOGY_VIRTUAL_MACHINE,
        forbidden_topology: 0,
        minimum_confidence_q16: 4_000,
        flags: SHIM_FLAG_PRESERVE_FIRMWARE_DISPLAY | SHIM_FLAG_READ_ONLY_PROBE
        | SHIM_FLAG_SUPPORTS_ROLLBACK | SHIM_FLAG_VIRTUAL_DEVICE,
        activation_budget_ticks: 8_192,
        health_budget_ticks: 2_048,
        program: ProbeProgram::new(
            steps,
            5,
            PROBE_EVIDENCE_IDENTITY | PROBE_EVIDENCE_IOMMU_DOMAIN | PROBE_EVIDENCE_TRANSPORT
        | PROBE_EVIDENCE_COMMAND_RING | PROBE_EVIDENCE_HEALTH,
            1_024,
        ),
    }
}

pub proof fn lemma_described(descriptor: ShimDescriptor)
    requires
        describes(descriptor),
    ensures
        descriptor.well_described(),
{
    reveal_strlit("virtio-gpu");
    crate::drivernet::registry::lemma_demands_are_never_empty();
}

} // verus!
