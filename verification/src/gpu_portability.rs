//! Which drivers a graphics device is portable to.

use crate::drivernet::fingerprint::{
    BarEvidence, GpuFingerprint, BAR_64BIT, BAR_IO, BAR_PREFETCHABLE, BAR_PRESENT,
    TOPOLOGY_BOOT_DISPLAY, TOPOLOGY_CONFIG_INCOMPLETE, TOPOLOGY_FIRMWARE_FRAMEBUFFER,
    TOPOLOGY_HOTPLUG_PORT, TOPOLOGY_INVENTORY_OVERFLOW, TOPOLOGY_IOMMU_ISOLATED,
    TOPOLOGY_IOMMU_PRESENT, TOPOLOGY_VIRTUAL_MACHINE, VENDOR_AMD, VENDOR_INTEL, VENDOR_NVIDIA,
    VENDOR_VIRTIO, VENDOR_VMWARE,
};
use crate::drivernet::model::DriverStrategy;
use crate::gpu_abi::{
    GpuBarEvidence, GpuCompatibility, GpuCompatibilityManifest, GpuCompatibilityProof,
    GpuDeviceEvidence, GpuDriverClass, GpuFirmwareSurface, GpuPciIdentity, GPU_BAR_64BIT,
    GPU_BAR_IO, GPU_BAR_PREFETCHABLE, GPU_BAR_PRESENT, GPU_EVIDENCE_BYTES,
    GPU_FIRMWARE_PRESERVE_BOOT_SURFACE, GPU_FIRMWARE_REQUIRED, GPU_MANIFEST_BYTES,
    GPU_PORTABLE_ABI_VERSION, GPU_TOPOLOGY_BOOT_DISPLAY, GPU_TOPOLOGY_FIRMWARE_SURFACE,
    GPU_TOPOLOGY_HOTPLUG, GPU_TOPOLOGY_INVENTORY_COMPLETE, GPU_TOPOLOGY_IOMMU_ISOLATED,
    GPU_TOPOLOGY_IOMMU_PRESENT, GPU_TOPOLOGY_VIRTUAL_MACHINE,
};
use crate::seal::mix;
use vstd::prelude::*;

verus! {

pub const HERMES_DRIVER_ID: u64 = 0x4845_524d_4553_0001;

pub const AMD_DISPLAY_DRIVER_ID: u64 = 0x414d_445f_4453_5001;

pub const INTEL_DISPLAY_DRIVER_ID: u64 = 0x494e_5445_4c44_5001;

pub const VIRTIO_GPU_DRIVER_ID: u64 = 0x5649_5254_4750_5501;

pub const VIRTUAL_SVGA_DRIVER_ID: u64 = 0x5356_4741_4750_5501;

pub const FIRMWARE_SURFACE_DRIVER_ID: u64 = 0x4657_5355_5246_0001;

#[derive(Clone, Copy, Debug, PartialEq, Eq, Structural)]
pub enum PortabilityFault {
    UnsupportedStrategy,
    Rejected(GpuCompatibilityProof),
    Ambiguous,
}

#[derive(Clone, Copy, Debug, PartialEq, Eq, Structural)]
pub struct PortabilityResolution {
    pub strategy: DriverStrategy,
    pub proof: GpuCompatibilityProof,
    pub resolution_root: u64,
}

impl PortabilityResolution {
    #[verifier::allow_in_spec]
    pub fn accepted(self) -> bool
        returns
            (self.proof.accepted() && self.resolution_root != 0),
    {
        self.proof.accepted() && self.resolution_root != 0
    }
}

/// What a native driver asks for: its vendor's display device, isolated, with a
/// first BAR of at least a page.
#[verifier::allow_in_spec]
pub fn native_manifest(driver_id: u64, vendor_id: u16, priority: u16) -> GpuCompatibilityManifest
    returns
        (GpuCompatibilityManifest {
            abi_version: GPU_PORTABLE_ABI_VERSION,
            struct_size: GPU_MANIFEST_BYTES,
            driver_id,
            driver_class: GpuDriverClass::Native,
            vendor_id,
            device_id_mask: 0,
            device_id_value: 0,
            class_mask: 0xff,
            class_value: 0x03,
            subclass_mask: 0,
            subclass_value: 0,
            revision_minimum: 0,
            revision_maximum: 0xff,
            architecture_mask: 0,
            architecture_value: 0,
            required_topology: GPU_TOPOLOGY_IOMMU_ISOLATED,
            forbidden_topology: 0,
            required_features: 0,
            optional_features: 0,
            required_bar_mask: 1,
            minimum_bar_lengths: [4096u64, 0u64, 0u64, 0u64, 0u64, 0u64],
            firmware_policy: GPU_FIRMWARE_PRESERVE_BOOT_SURFACE,
            priority,
        }),
{
    GpuCompatibilityManifest {
        abi_version: GPU_PORTABLE_ABI_VERSION,
        struct_size: GPU_MANIFEST_BYTES,
        driver_id,
        driver_class: GpuDriverClass::Native,
        vendor_id,
        device_id_mask: 0,
        device_id_value: 0,
        class_mask: 0xff,
        class_value: 0x03,
        subclass_mask: 0,
        subclass_value: 0,
        revision_minimum: 0,
        revision_maximum: 0xff,
        architecture_mask: 0,
        architecture_value: 0,
        required_topology: GPU_TOPOLOGY_IOMMU_ISOLATED,
        forbidden_topology: 0,
        required_features: 0,
        optional_features: 0,
        required_bar_mask: 1,
        minimum_bar_lengths: [4096u64, 0u64, 0u64, 0u64, 0u64, 0u64],
        firmware_policy: GPU_FIRMWARE_PRESERVE_BOOT_SURFACE,
        priority,
    }
}

/// What a paravirtual driver asks for: a virtual machine in place of isolation.
#[verifier::allow_in_spec]
pub fn paravirtual_manifest(
    driver_id: u64,
    vendor_id: u16,
    priority: u16,
) -> GpuCompatibilityManifest
    returns
        (GpuCompatibilityManifest {
            driver_class: GpuDriverClass::Paravirtual,
            required_topology: GPU_TOPOLOGY_VIRTUAL_MACHINE,
            ..native_manifest(driver_id, vendor_id, priority)
        }),
{
    GpuCompatibilityManifest {
        driver_class: GpuDriverClass::Paravirtual,
        required_topology: GPU_TOPOLOGY_VIRTUAL_MACHINE,
        ..native_manifest(driver_id, vendor_id, priority)
    }
}

/// What keeping the firmware surface asks for: a surface, of any vendor.
#[verifier::allow_in_spec]
pub fn firmware_manifest() -> GpuCompatibilityManifest
    returns
        (GpuCompatibilityManifest {
            abi_version: GPU_PORTABLE_ABI_VERSION,
            struct_size: GPU_MANIFEST_BYTES,
            driver_id: FIRMWARE_SURFACE_DRIVER_ID,
            driver_class: GpuDriverClass::FirmwareSurface,
            vendor_id: 0xffff,
            device_id_mask: 0,
            device_id_value: 0,
            class_mask: 0,
            class_value: 0,
            subclass_mask: 0,
            subclass_value: 0,
            revision_minimum: 0,
            revision_maximum: 0xff,
            architecture_mask: 0,
            architecture_value: 0,
            required_topology: GPU_TOPOLOGY_FIRMWARE_SURFACE,
            forbidden_topology: 0,
            required_features: 0,
            optional_features: 0,
            required_bar_mask: 0,
            minimum_bar_lengths: [0u64, 0u64, 0u64, 0u64, 0u64, 0u64],
            firmware_policy: GPU_FIRMWARE_REQUIRED | GPU_FIRMWARE_PRESERVE_BOOT_SURFACE,
            priority: 1_000,
        }),
{
    GpuCompatibilityManifest {
        abi_version: GPU_PORTABLE_ABI_VERSION,
        struct_size: GPU_MANIFEST_BYTES,
        driver_id: FIRMWARE_SURFACE_DRIVER_ID,
        driver_class: GpuDriverClass::FirmwareSurface,
        vendor_id: 0xffff,
        device_id_mask: 0,
        device_id_value: 0,
        class_mask: 0,
        class_value: 0,
        subclass_mask: 0,
        subclass_value: 0,
        revision_minimum: 0,
        revision_maximum: 0xff,
        architecture_mask: 0,
        architecture_value: 0,
        required_topology: GPU_TOPOLOGY_FIRMWARE_SURFACE,
        forbidden_topology: 0,
        required_features: 0,
        optional_features: 0,
        required_bar_mask: 0,
        minimum_bar_lengths: [0u64, 0u64, 0u64, 0u64, 0u64, 0u64],
        firmware_policy: GPU_FIRMWARE_REQUIRED | GPU_FIRMWARE_PRESERVE_BOOT_SURFACE,
        priority: 1_000,
    }
}

#[verifier::allow_in_spec]
pub fn manifest_for(strategy: DriverStrategy) -> Option<GpuCompatibilityManifest>
    returns
        (match strategy {
            DriverStrategy::HermesNvidia => Some(
                native_manifest(HERMES_DRIVER_ID, VENDOR_NVIDIA, 2_000),
            ),
            DriverStrategy::AmdDisplay => Some(
                native_manifest(AMD_DISPLAY_DRIVER_ID, VENDOR_AMD, 1_800),
            ),
            DriverStrategy::IntelDisplay => Some(
                native_manifest(INTEL_DISPLAY_DRIVER_ID, VENDOR_INTEL, 1_800),
            ),
            DriverStrategy::VirtioGpu => Some(
                paravirtual_manifest(VIRTIO_GPU_DRIVER_ID, VENDOR_VIRTIO, 2_500),
            ),
            DriverStrategy::VirtualSvga => Some(
                paravirtual_manifest(VIRTUAL_SVGA_DRIVER_ID, VENDOR_VMWARE, 2_000),
            ),
            DriverStrategy::FirmwareFramebuffer => Some(firmware_manifest()),
            DriverStrategy::Quarantine => None::<GpuCompatibilityManifest>,
        }),
{
    match strategy {
        DriverStrategy::HermesNvidia => Some(
            native_manifest(HERMES_DRIVER_ID, VENDOR_NVIDIA, 2_000),
        ),
        DriverStrategy::AmdDisplay => Some(
            native_manifest(AMD_DISPLAY_DRIVER_ID, VENDOR_AMD, 1_800),
        ),
        DriverStrategy::IntelDisplay => Some(
            native_manifest(INTEL_DISPLAY_DRIVER_ID, VENDOR_INTEL, 1_800),
        ),
        DriverStrategy::VirtioGpu => Some(
            paravirtual_manifest(VIRTIO_GPU_DRIVER_ID, VENDOR_VIRTIO, 2_500),
        ),
        DriverStrategy::VirtualSvga => Some(
            paravirtual_manifest(VIRTUAL_SVGA_DRIVER_ID, VENDOR_VMWARE, 2_000),
        ),
        DriverStrategy::FirmwareFramebuffer => Some(firmware_manifest()),
        DriverStrategy::Quarantine => None,
    }
}

/// The address that a BAR points to.
#[verifier::allow_in_spec]
pub fn bar_address(raw_low: u32, raw_high: u32, flags: u8) -> u64
    returns
        (if flags & BAR_PRESENT == 0 {
            0u64
        } else if flags & BAR_IO != 0 {
            (raw_low & !0x3) as u64
        } else if flags & BAR_64BIT != 0 {
            ((raw_high as u64) << 32) | ((raw_low & !0x0f) as u64)
        } else {
            (raw_low & !0x0f) as u64
        }),
{
    if flags & BAR_PRESENT == 0 {
        0
    } else if flags & BAR_IO != 0 {
        (raw_low & !0x3) as u64
    } else if flags & BAR_64BIT != 0 {
        ((raw_high as u64) << 32) | ((raw_low & !0x0f) as u64)
    } else {
        (raw_low & !0x0f) as u64
    }
}

/// One flag in another place, where it is set.
#[verifier::allow_in_spec]
pub fn carried_flag(set: bool, flag: u64) -> u64
    returns
        (if set {
            flag
        } else {
            0u64
        }),
{
    if set {
        flag
    } else {
        0
    }
}

#[verifier::allow_in_spec]
pub fn portable_bar(source: BarEvidence) -> GpuBarEvidence
    returns
        (GpuBarEvidence {
            physical_address: bar_address(source.raw_low, source.raw_high, source.flags),
            length: source.length,
            flags: (carried_flag(source.flags & BAR_PRESENT != 0, GPU_BAR_PRESENT as u64)
                | carried_flag(source.flags & BAR_IO != 0, GPU_BAR_IO as u64) | carried_flag(
                source.flags & BAR_64BIT != 0,
                GPU_BAR_64BIT as u64,
            ) | carried_flag(
                source.flags & BAR_PREFETCHABLE != 0,
                GPU_BAR_PREFETCHABLE as u64,
            )) as u32,
        }),
{
    GpuBarEvidence {
        physical_address: bar_address(source.raw_low, source.raw_high, source.flags),
        length: source.length,
        flags: (carried_flag(source.flags & BAR_PRESENT != 0, GPU_BAR_PRESENT as u64)
            | carried_flag(source.flags & BAR_IO != 0, GPU_BAR_IO as u64) | carried_flag(
            source.flags & BAR_64BIT != 0,
            GPU_BAR_64BIT as u64,
        ) | carried_flag(source.flags & BAR_PREFETCHABLE != 0, GPU_BAR_PREFETCHABLE as u64)) as u32,
    }
}

#[verifier::allow_in_spec]
pub fn portable_topology(flags: u32) -> u64
    returns
        (carried_flag(flags & TOPOLOGY_BOOT_DISPLAY != 0, GPU_TOPOLOGY_BOOT_DISPLAY)
            | carried_flag(flags & TOPOLOGY_IOMMU_PRESENT != 0, GPU_TOPOLOGY_IOMMU_PRESENT)
            | carried_flag(flags & TOPOLOGY_IOMMU_ISOLATED != 0, GPU_TOPOLOGY_IOMMU_ISOLATED)
            | carried_flag(
            flags & TOPOLOGY_FIRMWARE_FRAMEBUFFER != 0,
            GPU_TOPOLOGY_FIRMWARE_SURFACE,
        ) | carried_flag(flags & TOPOLOGY_VIRTUAL_MACHINE != 0, GPU_TOPOLOGY_VIRTUAL_MACHINE)
            | carried_flag(flags & TOPOLOGY_HOTPLUG_PORT != 0, GPU_TOPOLOGY_HOTPLUG)
            | carried_flag(
            flags & (TOPOLOGY_INVENTORY_OVERFLOW | TOPOLOGY_CONFIG_INCOMPLETE) == 0,
            GPU_TOPOLOGY_INVENTORY_COMPLETE,
        )),
{
    carried_flag(flags & TOPOLOGY_BOOT_DISPLAY != 0, GPU_TOPOLOGY_BOOT_DISPLAY) | carried_flag(
        flags & TOPOLOGY_IOMMU_PRESENT != 0,
        GPU_TOPOLOGY_IOMMU_PRESENT,
    ) | carried_flag(flags & TOPOLOGY_IOMMU_ISOLATED != 0, GPU_TOPOLOGY_IOMMU_ISOLATED)
        | carried_flag(flags & TOPOLOGY_FIRMWARE_FRAMEBUFFER != 0, GPU_TOPOLOGY_FIRMWARE_SURFACE)
        | carried_flag(flags & TOPOLOGY_VIRTUAL_MACHINE != 0, GPU_TOPOLOGY_VIRTUAL_MACHINE)
        | carried_flag(flags & TOPOLOGY_HOTPLUG_PORT != 0, GPU_TOPOLOGY_HOTPLUG) | carried_flag(
        flags & (TOPOLOGY_INVENTORY_OVERFLOW | TOPOLOGY_CONFIG_INCOMPLETE) == 0,
        GPU_TOPOLOGY_INVENTORY_COMPLETE,
    )
}

#[verifier::allow_in_spec]
pub fn portable_identity(fingerprint: &GpuFingerprint) -> GpuPciIdentity
    returns
        (GpuPciIdentity {
            segment: fingerprint.segment,
            bus: fingerprint.bus,
            slot: fingerprint.slot,
            function: fingerprint.function,
            revision: fingerprint.revision,
            vendor_id: fingerprint.vendor_id,
            device_id: fingerprint.device_id,
            subsystem_vendor_id: fingerprint.subsystem_vendor_id,
            subsystem_device_id: fingerprint.subsystem_device_id,
            class_code: fingerprint.class_code,
            subclass: fingerprint.subclass,
            programming_interface: fingerprint.programming_interface,
        }),
{
    GpuPciIdentity {
        segment: fingerprint.segment,
        bus: fingerprint.bus,
        slot: fingerprint.slot,
        function: fingerprint.function,
        revision: fingerprint.revision,
        vendor_id: fingerprint.vendor_id,
        device_id: fingerprint.device_id,
        subsystem_vendor_id: fingerprint.subsystem_vendor_id,
        subsystem_device_id: fingerprint.subsystem_device_id,
        class_code: fingerprint.class_code,
        subclass: fingerprint.subclass,
        programming_interface: fingerprint.programming_interface,
    }
}

#[verifier::allow_in_spec]
pub fn portable_surface(fingerprint: &GpuFingerprint) -> GpuFirmwareSurface
    returns
        (if fingerprint.firmware_framebuffer.usable() {
            GpuFirmwareSurface {
                physical_address: fingerprint.firmware_framebuffer.physical_address,
                byte_length: fingerprint.firmware_framebuffer.byte_length,
                width: fingerprint.firmware_framebuffer.width,
                height: fingerprint.firmware_framebuffer.height,
                pitch: fingerprint.firmware_framebuffer.pitch,
                format: fingerprint.firmware_framebuffer.format,
                flags: 0,
            }
        } else {
            GpuFirmwareSurface::none()
        }),
{
    let firmware = fingerprint.firmware_framebuffer;
    if firmware.usable() {
        GpuFirmwareSurface {
            physical_address: firmware.physical_address,
            byte_length: firmware.byte_length,
            width: firmware.width,
            height: firmware.height,
            pitch: firmware.pitch,
            format: firmware.format,
            flags: 0,
        }
    } else {
        GpuFirmwareSurface::none()
    }
}

#[verifier::allow_in_spec]
#[verifier::rlimit(50)]
#[verifier::spinoff_prover]
pub fn portable_bars(bars: &[BarEvidence; 6]) -> [GpuBarEvidence; 6]
    returns
        ([
            portable_bar(bars[0]),
            portable_bar(bars[1]),
            portable_bar(bars[2]),
            portable_bar(bars[3]),
            portable_bar(bars[4]),
            portable_bar(bars[5]),
        ]),
{
    [
        portable_bar(bars[0]),
        portable_bar(bars[1]),
        portable_bar(bars[2]),
        portable_bar(bars[3]),
        portable_bar(bars[4]),
        portable_bar(bars[5]),
    ]
}

/// The portable evidence of a fingerprint.
#[verifier::allow_in_spec]
pub fn portable_evidence(fingerprint: &GpuFingerprint) -> GpuDeviceEvidence
    returns
        (GpuDeviceEvidence {
            abi_version: GPU_PORTABLE_ABI_VERSION,
            struct_size: GPU_EVIDENCE_BYTES,
            identity: portable_identity(fingerprint),
            bars: portable_bars(&fingerprint.bars),
            capability_flags: fingerprint.capability_flags as u64,
            topology_flags: portable_topology(fingerprint.topology_flags),
            observed_features: fingerprint.capability_flags as u64,
            architecture_hint: 0,
            bootrom_revision: 0,
            firmware_surface: portable_surface(fingerprint),
            evidence_root: fingerprint.evidence_root,
        }),
{
    GpuDeviceEvidence {
        abi_version: GPU_PORTABLE_ABI_VERSION,
        struct_size: GPU_EVIDENCE_BYTES,
        identity: portable_identity(fingerprint),
        bars: portable_bars(&fingerprint.bars),
        capability_flags: fingerprint.capability_flags as u64,
        topology_flags: portable_topology(fingerprint.topology_flags),
        observed_features: fingerprint.capability_flags as u64,
        architecture_hint: 0,
        bootrom_revision: 0,
        firmware_surface: portable_surface(fingerprint),
        evidence_root: fingerprint.evidence_root,
    }
}

/// What a proof amounts to for a strategy.
pub open spec fn resolution_of(
    secret: u64,
    strategy: DriverStrategy,
    evidence_root: u64,
    proof: GpuCompatibilityProof,
) -> Result<PortabilityResolution, PortabilityFault> {
    if !proof.accepted {
        Err(PortabilityFault::Rejected(proof))
    } else {
        Ok(
            PortabilityResolution {
                strategy,
                proof,
                resolution_root: crate::seal::mix_of(
                    secret,
                    proof.proof_root ^ evidence_root ^ strategy.index() as u64,
                ),
            },
        )
    }
}

/// Takes a proof for a strategy.
pub fn settle_proof(
    secret: u64,
    strategy: DriverStrategy,
    evidence_root: u64,
    proof: GpuCompatibilityProof,
) -> (result: Result<PortabilityResolution, PortabilityFault>)
    ensures
        result == resolution_of(secret, strategy, evidence_root, proof),
{
    if !proof.accepted() {
        return Err(PortabilityFault::Rejected(proof));
    }
    Ok(
        PortabilityResolution {
            strategy,
            resolution_root: mix(
                secret,
                proof.proof_root ^ evidence_root ^ strategy.index() as u64,
            ),
            proof,
        },
    )
}

/// The best of some resolutions, and whether another scores the same.
pub open spec fn leader_of(
    results: Seq<Result<PortabilityResolution, PortabilityFault>>,
) -> (Option<PortabilityResolution>, bool)
    decreases results.len(),
{
    if results.len() == 0 {
        (None, false)
    } else {
        let (leader, tied) = leader_of(results.drop_last());
        match results.last() {
            Err(_) => (leader, tied),
            Ok(candidate) => match leader {
                None => (Some(candidate), false),
                Some(current) => if candidate.proof.score_q16 > current.proof.score_q16 {
                    (Some(candidate), false)
                } else {
                    (leader, tied || candidate.proof.score_q16 == current.proof.score_q16)
                },
            },
        }
    }
}

/// The resolution that a list of results leads to.
pub open spec fn choice_of(results: Seq<Result<PortabilityResolution, PortabilityFault>>) -> Result<
    PortabilityResolution,
    PortabilityFault,
> {
    let (leader, tied) = leader_of(results);
    if tied {
        Err(PortabilityFault::Ambiguous)
    } else {
        match leader {
            Some(resolution) => Ok(resolution),
            None => Err(PortabilityFault::UnsupportedStrategy),
        }
    }
}

/// Chooses among results.
pub fn choose_among(results: &Vec<Result<PortabilityResolution, PortabilityFault>>) -> (result:
    Result<PortabilityResolution, PortabilityFault>)
    ensures
        result == choice_of(results@),
{
    let mut winner: Option<PortabilityResolution> = None;
    let mut tied: bool = false;
    let mut index: usize = 0;
    assert(results@.take(0) =~= Seq::<Result<PortabilityResolution, PortabilityFault>>::empty());
    while index < results.len()
        invariant
            index <= results@.len(),
            (winner, tied) == leader_of(results@.take(index as int)),
        decreases results@.len() - index,
    {
        proof {
            assert(results@.take(index + 1).drop_last() =~= results@.take(index as int));
        }
        match results[index] {
            Err(_) => {},
            Ok(candidate) => match winner {
                None => {
                    winner = Some(candidate);
                    tied = false;
                },
                Some(current) => {
                    if candidate.proof.score_q16 > current.proof.score_q16 {
                        winner = Some(candidate);
                        tied = false;
                    } else if candidate.proof.score_q16 == current.proof.score_q16 {
                        tied = true;
                    }
                },
            },
        }
        index = index + 1;
    }
    assert(results@.take(index as int) =~= results@);
    if tied {
        return Err(PortabilityFault::Ambiguous);
    }
    match winner {
        Some(resolution) => Ok(resolution),
        None => Err(PortabilityFault::UnsupportedStrategy),
    }
}

pub struct GpuPortabilityResolver<'a, A: GpuCompatibility> {
    pub secret: u64,
    pub judge: &'a A,
}

impl<'a, A: GpuCompatibility> GpuPortabilityResolver<'a, A> {
    pub fn new(secret: u64, judge: &'a A) -> (result: Result<Self, PortabilityFault>)
        ensures
            match result {
                Ok(resolver) => secret != 0 && resolver.secret == secret && resolver.judge
                    == judge,
                Err(fault) => secret == 0 && fault == PortabilityFault::UnsupportedStrategy,
            },
    {
        if secret == 0 {
            return Err(PortabilityFault::UnsupportedStrategy);
        }
        Ok(GpuPortabilityResolver { secret, judge })
    }

    /// Whether a strategy may be resolved so, whatever the judge says.
    pub open spec fn proves(
        &self,
        strategy: DriverStrategy,
        fingerprint: &GpuFingerprint,
        result: Result<PortabilityResolution, PortabilityFault>,
    ) -> bool {
        match manifest_for(strategy) {
            None => result == Err::<PortabilityResolution, _>(
                PortabilityFault::UnsupportedStrategy,
            ),
            Some(manifest) => exists|proof: GpuCompatibilityProof| #[trigger]
                call_ensures(
                    A::evaluate,
                    (self.judge, &manifest, &portable_evidence(fingerprint), self.secret),
                    proof,
                ) && result == resolution_of(
                    self.secret,
                    strategy,
                    fingerprint.evidence_root,
                    proof,
                ),
        }
    }

    pub fn prove(&self, strategy: DriverStrategy, fingerprint: &GpuFingerprint) -> (result: Result<
        PortabilityResolution,
        PortabilityFault,
    >)
        ensures
            self.proves(strategy, fingerprint, result),
    {
        match manifest_for(strategy) {
            None => Err(PortabilityFault::UnsupportedStrategy),
            Some(manifest) => {
                let evidence = portable_evidence(fingerprint);
                let proof = self.judge.evaluate(&manifest, &evidence, self.secret);
                settle_proof(self.secret, strategy, fingerprint.evidence_root, proof)
            },
        }
    }

    pub fn select(&self, candidates: &[DriverStrategy], fingerprint: &GpuFingerprint) -> (result:
        Result<PortabilityResolution, PortabilityFault>)
        ensures
            exists|results: Seq<Result<PortabilityResolution, PortabilityFault>>|
                {
                    &&& results.len() == candidates@.len()
                    &&& forall|i: int|
                        0 <= i < results.len() ==> self.proves(
                            candidates@[i],
                            fingerprint,
                            #[trigger] results[i],
                        )
                    &&& result == #[trigger] choice_of(results)
                },
    {
        let mut results: Vec<Result<PortabilityResolution, PortabilityFault>> = Vec::new();
        let mut index: usize = 0;
        while index < candidates.len()
            invariant
                index <= candidates@.len(),
                results@.len() == index,
                forall|i: int|
                    0 <= i < results@.len() ==> self.proves(
                        candidates@[i],
                        fingerprint,
                        #[trigger] results@[i],
                    ),
            decreases candidates@.len() - index,
        {
            let proven = self.prove(candidates[index], fingerprint);
            results.push(proven);
            index = index + 1;
        }
        choose_among(&results)
    }
}

proof fn lemma_leader_leads(results: Seq<Result<PortabilityResolution, PortabilityFault>>)
    ensures
        match leader_of(results).0 {
            None => !leader_of(results).1 && forall|i: int|
                0 <= i < results.len() ==> #[trigger] results[i] is Err,
            Some(leader) => {
                &&& results.contains(Ok(leader))
                &&& forall|i: int|
                    0 <= i < results.len() ==> (#[trigger] results[i] matches Ok(other)
                        ==> other.proof.score_q16 <= leader.proof.score_q16)
            },
        },
    decreases results.len(),
{
    if results.len() > 0 {
        let head = results.drop_last();
        lemma_leader_leads(head);
        assert forall|i: int| 0 <= i < results.len() - 1 implies #[trigger] results[i]
            == head[i] by {}
        match leader_of(head).0 {
            Some(leader) => {
                let place = choose|i: int| 0 <= i < head.len() && head[i] == Ok::<_, PortabilityFault>(leader);
                assert(results[place] == Ok::<_, PortabilityFault>(leader));
            },
            None => {},
        }
        assert(results[results.len() - 1] == results.last());
    }
}

/// A chosen resolution is one of those offered, and none scores higher.
pub proof fn law_the_choice_scores_highest(
    results: Seq<Result<PortabilityResolution, PortabilityFault>>,
    chosen: PortabilityResolution,
)
    requires
        choice_of(results) == Ok::<PortabilityResolution, PortabilityFault>(chosen),
    ensures
        results.contains(Ok(chosen)),
        forall|i: int|
            0 <= i < results.len() ==> (#[trigger] results[i] matches Ok(other)
                ==> other.proof.score_q16 <= chosen.proof.score_q16),
{
    lemma_leader_leads(results);
}

/// Nothing is portable to quarantine, and every native driver asks for an
/// isolated device.
pub proof fn law_native_manifests_ask_for_isolation(strategy: DriverStrategy)
    ensures
        manifest_for(strategy) is None <==> strategy == DriverStrategy::Quarantine,
        manifest_for(strategy) matches Some(manifest) ==> (manifest.driver_class
            == GpuDriverClass::Native ==> manifest.required_topology == GPU_TOPOLOGY_IOMMU_ISOLATED
            && manifest.minimum_bar_lengths[0] == 4096),
{
}

} // verus!
