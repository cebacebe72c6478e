//! Driver descriptors: what each strategy needs and how it is probed.

use super::fingerprint::{
    GpuFingerprint, TOPOLOGY_FIRMWARE_FRAMEBUFFER, TOPOLOGY_IOMMU_ISOLATED,
    TOPOLOGY_VIRTUAL_MACHINE,
};
use super::model::DriverStrategy;
use vstd::prelude::*;

verus! {

pub const MAXIMUM_PROBE_STEPS: usize = 12;

pub const MAXIMUM_SHIMS: usize = 7;

pub const PROBE_EVIDENCE_IDENTITY: u32 = 1 << 0;

pub const PROBE_EVIDENCE_MMIO_DECODE: u32 = 1 << 1;

pub const PROBE_EVIDENCE_IOMMU_DOMAIN: u32 = 1 << 2;

pub const PROBE_EVIDENCE_RESET_PATH: u32 = 1 << 3;

pub const PROBE_EVIDENCE_INTERRUPT_PATH: u32 = 1 << 4;

pub const PROBE_EVIDENCE_FIRMWARE_LEASE: u32 = 1 << 5;

pub const PROBE_EVIDENCE_TRANSPORT: u32 = 1 << 6;

pub const PROBE_EVIDENCE_HEALTH: u32 = 1 << 7;

pub const PROBE_EVIDENCE_DISPLAY_ENGINE: u32 = 1 << 8;

pub const PROBE_EVIDENCE_COMMAND_RING: u32 = 1 << 9;

pub const SHIM_FLAG_PRESERVE_FIRMWARE_DISPLAY: u32 = 1 << 0;

pub const SHIM_FLAG_REQUIRES_EXCLUSIVE_DEVICE: u32 = 1 << 1;

pub const SHIM_FLAG_SUPPORTS_ROLLBACK: u32 = 1 << 2;

pub const SHIM_FLAG_VIRTUAL_DEVICE: u32 = 1 << 3;

pub const SHIM_FLAG_READ_ONLY_PROBE: u32 = 1 << 4;

pub const SHIM_FLAG_TERMINAL_FALLBACK: u32 = 1 << 5;

#[derive(Clone, Copy, Debug, PartialEq, Eq, Structural)]
pub enum ProbeSemantic {
    ValidateIdentity,
    VerifyIommuIsolation,
    MapControlBarReadOnly,
    SampleVendorSignature,
    VerifyResetMechanism,
    VerifyInterruptRoute,
    VerifyFirmwareLease,
    VerifyTransportPersonality,
    VerifyDisplayEngine,
    VerifyCommandRingGeometry,
    VerifyParavirtualCapability,
    EstablishHealthBaseline,
}

impl ProbeSemantic {
    #[verifier::allow_in_spec]
    pub fn code(self) -> u8
        returns
            (match self {
                ProbeSemantic::ValidateIdentity => 1u8,
                ProbeSemantic::VerifyIommuIsolation => 2u8,
                ProbeSemantic::MapControlBarReadOnly => 3u8,
                ProbeSemantic::SampleVendorSignature => 4u8,
                ProbeSemantic::VerifyResetMechanism => 5u8,
                ProbeSemantic::VerifyInterruptRoute => 6u8,
                ProbeSemantic::VerifyFirmwareLease => 7u8,
                ProbeSemantic::VerifyTransportPersonality => 8u8,
                ProbeSemantic::VerifyDisplayEngine => 9u8,
                ProbeSemantic::VerifyCommandRingGeometry => 10u8,
                ProbeSemantic::VerifyParavirtualCapability => 11u8,
                ProbeSemantic::EstablishHealthBaseline => 12u8,
            }),
    {
        match self {
            ProbeSemantic::ValidateIdentity => 1,
            ProbeSemantic::VerifyIommuIsolation => 2,
            ProbeSemantic::MapControlBarReadOnly => 3,
            ProbeSemantic::SampleVendorSignature => 4,
            ProbeSemantic::VerifyResetMechanism => 5,
            ProbeSemantic::VerifyInterruptRoute => 6,
            ProbeSemantic::VerifyFirmwareLease => 7,
            ProbeSemantic::VerifyTransportPersonality => 8,
            ProbeSemantic::VerifyDisplayEngine => 9,
            ProbeSemantic::VerifyCommandRingGeometry => 10,
            ProbeSemantic::VerifyParavirtualCapability => 11,
            ProbeSemantic::EstablishHealthBaseline => 12,
        }
    }
}

#[derive(Clone, Copy, Debug, PartialEq, Eq)]
pub struct ProbeStep {
    pub semantic: ProbeSemantic,
    pub evidence_bit: u32,
    pub maximum_ticks: u32,
    pub retries: u8,
    pub flags: u8,
    pub argument: u16,
}

impl ProbeStep {
    #[verifier::allow_in_spec]
    pub fn empty() -> ProbeStep
        returns
            (ProbeStep {
                semantic: ProbeSemantic::ValidateIdentity,
                evidence_bit: 0,
                maximum_ticks: 0,
                retries: 0,
                flags: 0,
                argument: 0,
            }),
    {
        ProbeStep {
            semantic: ProbeSemantic::ValidateIdentity,
            evidence_bit: 0,
            maximum_ticks: 0,
            retries: 0,
            flags: 0,
            argument: 0,
        }
    }
}

#[derive(Clone, Copy, Debug, PartialEq, Eq)]
pub struct ProbeProgram {
    pub steps: [ProbeStep; MAXIMUM_PROBE_STEPS],
    pub length: usize,
    pub required_evidence: u32,
    pub maximum_total_ticks: u64,
}

impl ProbeProgram {
    #[verifier::allow_in_spec]
    pub fn new(
        steps: [ProbeStep; MAXIMUM_PROBE_STEPS],
        length: usize,
        required_evidence: u32,
        maximum_total_ticks: u64,
    ) -> ProbeProgram
        returns
            (ProbeProgram { steps, length, required_evidence, maximum_total_ticks }),
    {
        ProbeProgram { steps, length, required_evidence, maximum_total_ticks }
    }

    /// The steps that are run: no more than a program can hold.
    pub open spec fn listed(self) -> Seq<ProbeStep> {
        self.steps@.take(
            if self.length < MAXIMUM_PROBE_STEPS {
                self.length as int
            } else {
                MAXIMUM_PROBE_STEPS as int
            },
        )
    }

    pub fn steps(&self) -> (steps: &[ProbeStep])
        ensures
            steps@ == self.listed(),
    {
        let end: usize = if self.length < MAXIMUM_PROBE_STEPS {
            self.length
        } else {
            MAXIMUM_PROBE_STEPS
        };
        vstd::slice::slice_subrange(vstd::array::array_as_slice(&self.steps), 0, end)
    }

    #[verifier::allow_in_spec]
    pub fn valid(self) -> bool
        returns
            ({
                &&& self.length != 0
                &&& self.length <= MAXIMUM_PROBE_STEPS
                &&& self.required_evidence != 0
                &&& self.maximum_total_ticks != 0
            }),
    {
        self.length != 0 && self.length <= MAXIMUM_PROBE_STEPS && self.required_evidence != 0
            && self.maximum_total_ticks != 0
    }
}

#[derive(Clone, Copy, Debug, PartialEq, Eq, Structural)]
pub struct VendorGate {
    pub vendor_id: u16,
    pub device_id_mask: u16,
    pub device_id_value: u16,
}

impl VendorGate {
    /// Lets every device in.
    #[verifier::allow_in_spec]
    pub fn any() -> VendorGate
        returns
            (VendorGate { vendor_id: 0xffff, device_id_mask: 0, device_id_value: 0 }),
    {
        VendorGate { vendor_id: 0xffff, device_id_mask: 0, device_id_value: 0 }
    }

    #[verifier::allow_in_spec]
    pub fn matches(self, fingerprint: &GpuFingerprint) -> bool
        returns
            (self.vendor_id == 0xffff || self.vendor_id == fingerprint.vendor_id) && (
            fingerprint.device_id & self.device_id_mask) == (self.device_id_value
                & self.device_id_mask),
    {
        (self.vendor_id == 0xffff || self.vendor_id == fingerprint.vendor_id) && (
        fingerprint.device_id & self.device_id_mask) == (self.device_id_value
            & self.device_id_mask)
    }
}

#[derive(Clone, Copy, Debug, PartialEq, Eq)]
pub struct ShimDescriptor {
    pub strategy: DriverStrategy,
    pub name: &'static str,
    pub abi_version: u32,
    pub vendor_gate: VendorGate,
    pub required_topology: u32,
    pub forbidden_topology: u32,
    pub minimum_confidence_q16: u16,
    pub flags: u32,
    pub activation_budget_ticks: u64,
    pub health_budget_ticks: u64,
    pub program: ProbeProgram,
}

impl ShimDescriptor {
    pub open spec fn well_described(self) -> bool {
        &&& self.name@.len() != 0
        &&& self.abi_version != 0
        &&& self.activation_budget_ticks != 0
        &&& self.health_budget_ticks != 0
        &&& self.program.valid()
    }

    pub fn valid(self) -> (valid: bool)
        ensures
            valid == self.well_described(),
    {
        !self.name.is_empty() && self.abi_version != 0 && self.activation_budget_ticks != 0
            && self.health_budget_ticks != 0 && self.program.valid()
    }

    /// Whether a descriptor takes a fingerprint on at a confidence.
    pub open spec fn takes(self, fingerprint: GpuFingerprint, confidence_q16: u16) -> bool {
        &&& self.well_described()
        &&& self.vendor_gate.matches(&fingerprint)
        &&& fingerprint.topology_flags & self.required_topology == self.required_topology
        &&& fingerprint.topology_flags & self.forbidden_topology == 0
        &&& confidence_q16 >= self.minimum_confidence_q16
    }

    pub fn accepts(self, fingerprint: &GpuFingerprint, confidence_q16: u16) -> (accepted: bool)
        ensures
            accepted == self.takes(*fingerprint, confidence_q16),
    {
        self.valid() && self.vendor_gate.matches(fingerprint) && fingerprint.topology_flags
            & self.required_topology == self.required_topology && fingerprint.topology_flags
            & self.forbidden_topology == 0 && confidence_q16 >= self.minimum_confidence_q16
    }
}

#[derive(Clone, Copy, Debug, PartialEq, Eq, Structural)]
pub enum RegistryError {
    DuplicateStrategy,
    InvalidDescriptor,
    MissingStrategy,
}

pub open spec fn descriptors_valid(descriptors: Seq<ShimDescriptor>) -> bool {
    forall|i: int| 0 <= i < descriptors.len() ==> (#[trigger] descriptors[i]).well_described()
}

pub open spec fn strategies_distinct(descriptors: Seq<ShimDescriptor>) -> bool {
    forall|i: int, j: int|
        0 <= i < j < descriptors.len() ==> (#[trigger] descriptors[i]).strategy != (
        #[trigger] descriptors[j]).strategy
}

/// The descriptor of a strategy, the first where several name it.
pub open spec fn described(
    descriptors: Seq<ShimDescriptor>,
    strategy: DriverStrategy,
) -> Option<ShimDescriptor>
    decreases descriptors.len(),
{
    if descriptors.len() == 0 {
        None
    } else if descriptors[0].strategy == strategy {
        Some(descriptors[0])
    } else {
        described(descriptors.skip(1), strategy)
    }
}

/// Whether the descriptors of the Hermes and Intel drivers take the two
/// strategies that the built-in descriptors leave free, one each.
pub open spec fn take_the_free_strategies(hermes: ShimDescriptor, intel: ShimDescriptor) -> bool {
    &&& hermes.strategy == DriverStrategy::HermesNvidia || hermes.strategy
        == DriverStrategy::IntelDisplay
    &&& intel.strategy == DriverStrategy::HermesNvidia || intel.strategy
        == DriverStrategy::IntelDisplay
    &&& hermes.strategy != intel.strategy
}

/// What comes of putting the laboratory registry together.
pub open spec fn black_lab_result(
    hermes: ShimDescriptor,
    intel: ShimDescriptor,
    result: Result<ShimRegistry, RegistryError>,
) -> bool {
    if !hermes.well_described() || !intel.well_described() {
        result == Err::<ShimRegistry, _>(RegistryError::InvalidDescriptor)
    } else if !take_the_free_strategies(hermes, intel) {
        result == Err::<ShimRegistry, _>(RegistryError::DuplicateStrategy)
    } else {
        result matches Ok(registry) && registry.is_black_lab(hermes, intel)
    }
}

/// One valid descriptor per strategy.
pub struct ShimRegistry {
    pub descriptors: [ShimDescriptor; MAXIMUM_SHIMS],
}

impl ShimRegistry {
    pub open spec fn view(&self) -> Seq<ShimDescriptor> {
        self.descriptors@
    }

    pub open spec fn wf(&self) -> bool {
        descriptors_valid(self@) && strategies_distinct(self@)
    }

    /// Whether this is the laboratory registry over the descriptors of the
    /// Hermes and Intel drivers.
    pub open spec fn is_black_lab(&self, hermes: ShimDescriptor, intel: ShimDescriptor) -> bool {
        &&& self.wf()
        &&& self@[0] == hermes
        &&& super::shims::amd_display::describes(self@[1])
        &&& self@[2] == intel
        &&& super::shims::virtio_gpu::describes(self@[3])
        &&& super::shims::virtual_svga::describes(self@[4])
        &&& super::shims::firmware_fb::describes(self@[5])
        &&& super::shims::quarantine::describes(self@[6])
    }

    pub fn new(descriptors: [ShimDescriptor; MAXIMUM_SHIMS]) -> (result: Result<
        Self,
        RegistryError,
    >)
        ensures
            match result {
                Ok(registry) => registry.wf() && registry.descriptors == descriptors,
                Err(error) => if !descriptors_valid(descriptors@) {
                    error == RegistryError::InvalidDescriptor
                } else {
                    !strategies_distinct(descriptors@) && error == RegistryError::DuplicateStrategy
                },
            },
    {
        let mut index: usize = 0;
        while index < MAXIMUM_SHIMS
            invariant
                index <= MAXIMUM_SHIMS,
                forall|i: int|
                    0 <= i < index ==> (#[trigger] descriptors@[i]).well_described(),
            decreases MAXIMUM_SHIMS - index,
        {
            if !descriptors[index].valid() {
                assert(!descriptors@[index as int].well_described());
                return Err(RegistryError::InvalidDescriptor);
            }
            index += 1;
        }
        let mut left: usize = 0;
        while left < MAXIMUM_SHIMS
            invariant
                left <= MAXIMUM_SHIMS,
                descriptors_valid(descriptors@),
                forall|i: int, j: int|
                    0 <= i < left && i < j < MAXIMUM_SHIMS ==> (
                    #[trigger] descriptors@[i]).strategy != (#[trigger] descriptors@[j]).strategy,
            decreases MAXIMUM_SHIMS - left,
        {
            let mut right: usize = left + 1;
            while right < MAXIMUM_SHIMS
                invariant
                    left < right <= MAXIMUM_SHIMS,
                    descriptors_valid(descriptors@),
                    forall|j: int|
                        left < j < right ==> descriptors@[left as int].strategy != (
                        #[trigger] descriptors@[j]).strategy,
                decreases MAXIMUM_SHIMS - right,
            {
                if descriptors[left].strategy == descriptors[right].strategy {
                    assert(descriptors@[left as int].strategy
                        == descriptors@[right as int].strategy);
                    return Err(RegistryError::DuplicateStrategy);
                }
                right += 1;
            }
            left += 1;
        }
        Ok(ShimRegistry { descriptors })
    }

    /// The laboratory registry: the built-in descriptors beside those of the
    /// Hermes and Intel drivers, which live with their drivers.
    pub fn black_lab(hermes: ShimDescriptor, intel: ShimDescriptor) -> (result: Result<
        Self,
        RegistryError,
    >)
        ensures
            black_lab_result(hermes, intel, result),
    {
        let descriptors = [
            hermes,
            super::shims::amd_display::descriptor(),
            intel,
            super::shims::virtio_gpu::descriptor(),
            super::shims::virtual_svga::descriptor(),
            super::shims::firmware_fb::descriptor(),
            super::shims::quarantine::descriptor(),
        ];
        assert(!hermes.well_described() ==> !descriptors@[0].well_described());
        assert(!intel.well_described() ==> !descriptors@[2].well_described());
        proof {
            super::shims::amd_display::lemma_described(descriptors@[1]);
            super::shims::virtio_gpu::lemma_described(descriptors@[3]);
            super::shims::virtual_svga::lemma_described(descriptors@[4]);
            super::shims::firmware_fb::lemma_described(descriptors@[5]);
            super::shims::quarantine::lemma_described(descriptors@[6]);
        }
        let result = ShimRegistry::new(descriptors);
        proof {
            let shims = descriptors@;
            if result is Ok {
                assert(shims[0].strategy != shims[1].strategy);
                assert(shims[0].strategy != shims[2].strategy);
                assert(shims[0].strategy != shims[3].strategy);
                assert(shims[0].strategy != shims[4].strategy);
                assert(shims[0].strategy != shims[5].strategy);
                assert(shims[0].strategy != shims[6].strategy);
                assert(shims[1].strategy != shims[2].strategy);
                assert(shims[2].strategy != shims[3].strategy);
                assert(shims[2].strategy != shims[4].strategy);
                assert(shims[2].strategy != shims[5].strategy);
                assert(shims[2].strategy != shims[6].strategy);
            }
        }
        result
    }

    pub fn descriptor(&self, strategy: DriverStrategy) -> (result: Result<
        &ShimDescriptor,
        RegistryError,
    >)
        ensures
            match described(self@, strategy) {
                Some(descriptor) => result matches Ok(found) && *found == descriptor,
                None => result == Err::<&ShimDescriptor, _>(RegistryError::MissingStrategy),
            },
    {
        let mut index: usize = 0;
        assert(self@.skip(0) =~= self@);
        while index < MAXIMUM_SHIMS
            invariant
                index <= MAXIMUM_SHIMS,
                self@.len() == MAXIMUM_SHIMS,
                described(self@, strategy) == described(self@.skip(index as int), strategy),
            decreases MAXIMUM_SHIMS - index,
        {
            proof {
                let rest = self@.skip(index as int);
                assert(rest[0] == self@[index as int]);
                assert(rest.skip(1) =~= self@.skip(index + 1));
            }
            if self.descriptors[index].strategy == strategy {
                return Ok(&self.descriptors[index]);
            }
            index += 1;
        }
        Err(RegistryError::MissingStrategy)
    }

    pub fn descriptors(&self) -> (descriptors: &[ShimDescriptor])
        ensures
            descriptors@ == self@,
    {
        vstd::array::array_as_slice(&self.descriptors)
    }
}

#[verifier::allow_in_spec]
pub fn native_required_topology() -> u32
    returns
        TOPOLOGY_IOMMU_ISOLATED,
{
    TOPOLOGY_IOMMU_ISOLATED
}

#[verifier::allow_in_spec]
pub fn firmware_required_topology() -> u32
    returns
        TOPOLOGY_FIRMWARE_FRAMEBUFFER,
{
    TOPOLOGY_FIRMWARE_FRAMEBUFFER
}

#[verifier::allow_in_spec]
pub fn virtual_required_topology() -> u32
    returns
        TOPOLOGY_VIRTUAL_MACHINE,
{
    TOPOLOGY_VIRTUAL_MACHINE
}

#[verifier::allow_in_spec]
pub fn step(
    semantic: ProbeSemantic,
    evidence_bit: u32,
    maximum_ticks: u32,
    retries: u8,
    argument: u16,
) -> ProbeStep
    returns
        (ProbeStep { semantic, evidence_bit, maximum_ticks, retries, flags: 0, argument }),
{
    ProbeStep { semantic, evidence_bit, maximum_ticks, retries, flags: 0, argument }
}

pub fn empty_steps() -> (steps: [ProbeStep; MAXIMUM_PROBE_STEPS])
    ensures
        steps@ == Seq::new(MAXIMUM_PROBE_STEPS as nat, |i: int| ProbeStep::empty()),
{
    let steps = [ProbeStep::empty(); 12];
    assert(steps@ =~= Seq::new(MAXIMUM_PROBE_STEPS as nat, |i: int| ProbeStep::empty()));
    steps
}

/// Whether the steps of a program are those listed, then empty ones.
pub open spec fn steps_are(program: ProbeProgram, listed: Seq<ProbeStep>) -> bool {
    &&& program.length == listed.len()
    &&& forall|i: int|
        0 <= i < MAXIMUM_PROBE_STEPS ==> #[trigger] program.steps@[i] == (if i < listed.len() {
            listed[i]
        } else {
            ProbeStep::empty()
        })
}

proof fn lemma_described_found(descriptors: Seq<ShimDescriptor>, strategy: DriverStrategy, at: int)
    requires
        0 <= at < descriptors.len(),
        descriptors[at].strategy == strategy,
        strategies_distinct(descriptors),
    ensures
        described(descriptors, strategy) == Some(descriptors[at]),
    decreases descriptors.len(),
{
    if at > 0 {
        assert(descriptors[0].strategy != descriptors[at].strategy);
        let rest = descriptors.skip(1);
        assert(rest[at - 1] == descriptors[at]);
        assert forall|i: int, j: int| 0 <= i < j < rest.len() implies (
        #[trigger] rest[i]).strategy != (#[trigger] rest[j]).strategy by {
            assert(descriptors[i + 1].strategy != descriptors[j + 1].strategy);
        }
        lemma_described_found(rest, strategy, at - 1);
    }
}

/// A registry answers for a strategy with the one descriptor that names it.
pub proof fn law_a_registry_finds_each_descriptor(registry: ShimRegistry, at: int)
    requires
        registry.wf(),
        0 <= at < MAXIMUM_SHIMS,
    ensures
        described(registry@, registry@[at].strategy) == Some(registry@[at]),
{
    lemma_described_found(registry@, registry@[at].strategy, at);
}

/// Whatever a driver demands, it demands something.
pub proof fn lemma_demands_are_never_empty()
    by (bit_vector)
    ensures
        (PROBE_EVIDENCE_FIRMWARE_LEASE | PROBE_EVIDENCE_HEALTH) != 0,
        (PROBE_EVIDENCE_IDENTITY | PROBE_EVIDENCE_IOMMU_DOMAIN | PROBE_EVIDENCE_MMIO_DECODE
            | PROBE_EVIDENCE_DISPLAY_ENGINE | PROBE_EVIDENCE_RESET_PATH | PROBE_EVIDENCE_HEALTH)
            != 0,
        (PROBE_EVIDENCE_HEALTH) != 0,
        (PROBE_EVIDENCE_IDENTITY | PROBE_EVIDENCE_IOMMU_DOMAIN | PROBE_EVIDENCE_TRANSPORT
            | PROBE_EVIDENCE_COMMAND_RING | PROBE_EVIDENCE_HEALTH) != 0,
        (PROBE_EVIDENCE_IDENTITY | PROBE_EVIDENCE_TRANSPORT | PROBE_EVIDENCE_DISPLAY_ENGINE
            | PROBE_EVIDENCE_HEALTH) != 0,
        PROBE_EVIDENCE_IDENTITY == 1 && PROBE_EVIDENCE_MMIO_DECODE == 2
            && PROBE_EVIDENCE_IOMMU_DOMAIN == 4 && PROBE_EVIDENCE_RESET_PATH == 8
            && PROBE_EVIDENCE_INTERRUPT_PATH == 16 && PROBE_EVIDENCE_FIRMWARE_LEASE == 32
            && PROBE_EVIDENCE_TRANSPORT == 64 && PROBE_EVIDENCE_HEALTH == 128
            && PROBE_EVIDENCE_DISPLAY_ENGINE == 256 && PROBE_EVIDENCE_COMMAND_RING == 512,
{
}

} // verus!
