//! Laws of the descriptors of the drivers.

use vstd::prelude::*;

use crate::drivernet::registry::ProbeProgram;
use crate::drivernet::registry::ProbeSemantic;
use crate::drivernet::registry::ShimDescriptor;

verus! {

/// Whether a descriptor is one of those that drivers give of themselves.
pub open spec fn given(descriptor: ShimDescriptor) -> bool {
    ||| crate::drivernet::shims::amd_display::describes(descriptor)
    ||| crate::drivernet::shims::virtio_gpu::describes(descriptor)
    ||| crate::drivernet::shims::virtual_svga::describes(descriptor)
    ||| crate::drivernet::shims::firmware_fb::describes(descriptor)
    ||| crate::drivernet::shims::quarantine::describes(descriptor)
}

/// The evidence that the first steps of a program gather.
pub open spec fn gathered(program: ProbeProgram, upto: int) -> u32
    decreases upto,
{
    if upto <= 1 {
        program.steps@[0].evidence_bit
    } else {
        gathered(program, upto - 1) | program.steps@[upto - 1].evidence_bit
    }
}

/// The time that the first steps of a program may take, each tried once.
pub open spec fn allotted(program: ProbeProgram, upto: int) -> int
    decreases upto,
{
    if upto <= 0 {
        0
    } else {
        allotted(program, upto - 1) + program.steps@[upto - 1].maximum_ticks
    }
}

/// A driver requires exactly the evidence that its steps gather, and the last of
/// them looks at the device's health.
pub proof fn law_drivers_require_what_they_gather(descriptor: ShimDescriptor)
    requires
        given(descriptor),
    ensures
        descriptor.program.length > 0,
        descriptor.program.required_evidence == gathered(
            descriptor.program,
            descriptor.program.length as int,
        ),
        descriptor.program.steps@[descriptor.program.length - 1].semantic
            == ProbeSemantic::EstablishHealthBaseline,
        descriptor.program.steps@[descriptor.program.length - 1].evidence_bit
            == crate::drivernet::registry::PROBE_EVIDENCE_HEALTH,
{
    reveal_with_fuel(gathered, 7);
}

/// Every step may run once within the time of the program, the program within the
/// time of an activation, and no health check takes longer than an activation.
pub proof fn law_programs_fit_their_budget(descriptor: ShimDescriptor)
    requires
        given(descriptor),
    ensures
        allotted(descriptor.program, descriptor.program.length as int)
            <= descriptor.program.maximum_total_ticks,
        descriptor.program.maximum_total_ticks < descriptor.activation_budget_ticks,
        descriptor.health_budget_ticks <= descriptor.activation_budget_ticks,
{
    reveal_with_fuel(allotted, 8);
}

/// A step gathers the evidence that its meaning names, and an identity is looked
/// at before anything else.
pub proof fn law_steps_gather_what_they_mean(descriptor: ShimDescriptor, i: int)
    requires
        given(descriptor),
        0 <= i < descriptor.program.length,
    ensures
        ({
            let step = descriptor.program.steps@[i];
            &&& step.evidence_bit == (match step.semantic {
                ProbeSemantic::ValidateIdentity =>
                    crate::drivernet::registry::PROBE_EVIDENCE_IDENTITY,
                ProbeSemantic::VerifyIommuIsolation =>
                    crate::drivernet::registry::PROBE_EVIDENCE_IOMMU_DOMAIN,
                ProbeSemantic::MapControlBarReadOnly =>
                    crate::drivernet::registry::PROBE_EVIDENCE_MMIO_DECODE,
                ProbeSemantic::VerifyDisplayEngine =>
                    crate::drivernet::registry::PROBE_EVIDENCE_DISPLAY_ENGINE,
                ProbeSemantic::VerifyResetMechanism =>
                    crate::drivernet::registry::PROBE_EVIDENCE_RESET_PATH,
                ProbeSemantic::VerifyParavirtualCapability =>
                    crate::drivernet::registry::PROBE_EVIDENCE_TRANSPORT,
                ProbeSemantic::VerifyCommandRingGeometry =>
                    crate::drivernet::registry::PROBE_EVIDENCE_COMMAND_RING,
                ProbeSemantic::VerifyFirmwareLease =>
                    crate::drivernet::registry::PROBE_EVIDENCE_FIRMWARE_LEASE,
                ProbeSemantic::EstablishHealthBaseline =>
                    crate::drivernet::registry::PROBE_EVIDENCE_HEALTH,
                _ => 0,
            })
            &&& step.semantic == ProbeSemantic::ValidateIdentity ==> i == 0
            &&& step.maximum_ticks > 0
        }),
{
}

} // verus!
