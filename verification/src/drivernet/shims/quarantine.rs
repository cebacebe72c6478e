//! No driver: the device is left alone.

use crate::drivernet::model::DriverStrategy;
use crate::drivernet::registry::{
    PROBE_EVIDENCE_HEALTH, ProbeProgram, ProbeSemantic, SHIM_FLAG_READ_ONLY_PROBE,
    SHIM_FLAG_TERMINAL_FALLBACK, ShimDescriptor, VendorGate, empty_steps, step,
};
use vstd::prelude::*;

verus! {

/// Whether a descriptor is that of this strategy.
pub open spec fn describes(descriptor: ShimDescriptor) -> bool {
    &&& descriptor.strategy == DriverStrategy::Quarantine
    &&& descriptor.name@ == "quarantine"@
    &&& descriptor.abi_version == 2
    &&& descriptor.vendor_gate == (VendorGate::any())
    &&& descriptor.required_topology == 0
    &&& descriptor.forbidden_topology == 0
    &&& descriptor.minimum_confidence_q16 == 0
    &&& descriptor.flags == SHIM_FLAG_READ_ONLY_PROBE | SHIM_FLAG_TERMINAL_FALLBACK
    &&& descriptor.activation_budget_ticks == 256
    &&& descriptor.health_budget_ticks == 256
    &&& descriptor.program.required_evidence == PROBE_EVIDENCE_HEALTH
    &&& descriptor.program.maximum_total_ticks == 64
    &&& crate::drivernet::registry::steps_are(
        descriptor.program,
        seq![
            step(ProbeSemantic::EstablishHealthBaseline, PROBE_EVIDENCE_HEALTH, 32, 0, 0),
        ],
    )
}

pub fn descriptor() -> (descriptor: ShimDescriptor)
    ensures
        describes(descriptor),
{
    let mut steps = empty_steps();
    steps[0] = step(ProbeSemantic::EstablishHealthBaseline, PROBE_EVIDENCE_HEALTH, 32, 0, 0);
    ShimDescriptor {
        strategy: DriverStrategy::Quarantine,
        name: "quarantine",
        abi_version: 2,
        vendor_gate: VendorGate::any(),
        required_topology: 0,
        forbidden_topology: 0,
        minimum_confidence_q16: 0,
        flags: SHIM_FLAG_READ_ONLY_PROBE | SHIM_FLAG_TERMINAL_FALLBACK,
        activation_budget_ticks: 256,
        health_budget_ticks: 256,
        program: ProbeProgram::new(
            steps,
            1,
            PROBE_EVIDENCE_HEALTH,
            64,
        ),
    }
}

pub proof fn lemma_described(descriptor: ShimDescriptor)
    requires
        describes(descriptor),
    ensures
        descriptor.well_described(),
{
    reveal_strlit("quarantine");
    crate::drivernet::registry::lemma_demands_are_never_empty();
}

} // verus!
