use boulder_drivers::drivernet::fingerprint::{
    BarEvidence, FirmwareFramebufferEvidence, FirmwareFramebufferKind, GpuFingerprint, BAR_64BIT,
    BAR_PRESENT, TOPOLOGY_FIRMWARE_FRAMEBUFFER, TOPOLOGY_IOMMU_ISOLATED, VENDOR_NVIDIA,
};
use boulder_drivers::drivernet::model::DriverStrategy;
use boulder_drivers::gpu_abi::{
    GpuBarEvidence, GpuCompatibility, GpuCompatibilityManifest, GpuCompatibilityProof,
    GpuDeviceEvidence, GpuDriverClass, GPU_BAR_IO, GPU_BAR_PRESENT, GPU_FIRMWARE_REQUIRED,
    GPU_TOPOLOGY_IOMMU_ISOLATED,
};
use boulder_drivers::gpu_portability::{
    bar_address, manifest_for, portable_evidence, GpuPortabilityResolver, PortabilityFault,
};

struct Judge;

impl GpuCompatibility for Judge {
    fn manifest_valid(&self, manifest: &GpuCompatibilityManifest) -> bool {
        manifest.abi_version != 0 && manifest.driver_id != 0
    }

    fn evidence_valid(&self, evidence: &GpuDeviceEvidence) -> bool {
        evidence.evidence_root != 0
    }

    fn usable_mmio(&self, bar: &GpuBarEvidence) -> bool {
        bar.flags & GPU_BAR_PRESENT != 0 && bar.flags & GPU_BAR_IO == 0 && bar.length != 0
    }

    fn evaluate(
        &self,
        manifest: &GpuCompatibilityManifest,
        evidence: &GpuDeviceEvidence,
        secret: u64,
    ) -> GpuCompatibilityProof {
        let bars = (0..6).all(|index| {
            manifest.required_bar_mask & (1 << index) == 0
                || (self.usable_mmio(&evidence.bars[index])
                    && evidence.bars[index].length >= manifest.minimum_bar_lengths[index])
        });
        let identity = manifest.driver_class == GpuDriverClass::FirmwareSurface
            || (manifest.vendor_id == evidence.identity.vendor_id
                && evidence.identity.class_code & manifest.class_mask == manifest.class_value);
        let firmware = manifest.firmware_policy & GPU_FIRMWARE_REQUIRED == 0
            || evidence.firmware_surface.byte_length != 0;
        let accepted = self.manifest_valid(manifest)
            && self.evidence_valid(evidence)
            && bars
            && identity
            && firmware
            && evidence.topology_flags & manifest.required_topology == manifest.required_topology;
        GpuCompatibilityProof {
            accepted,
            score_q16: u32::from(manifest.priority),
            proof_root: secret ^ evidence.evidence_root,
        }
    }
}

fn nvidia() -> GpuFingerprint {
    let mut fingerprint = GpuFingerprint::empty();
    fingerprint.vendor_id = VENDOR_NVIDIA;
    fingerprint.class_code = 0x03;
    fingerprint.topology_flags = TOPOLOGY_IOMMU_ISOLATED;
    fingerprint.bars[0] = BarEvidence {
        raw_low: 0x8000_0004,
        raw_high: 0,
        length: 16 * 1024 * 1024,
        flags: BAR_PRESENT | BAR_64BIT,
    };
    fingerprint.evidence_root = 9;
    fingerprint
}

fn framebuffer() -> FirmwareFramebufferEvidence {
    FirmwareFramebufferEvidence {
        kind: FirmwareFramebufferKind::Vbe,
        physical_address: 0xe000_0000,
        width: 1024,
        height: 768,
        pitch: 4096,
        format: 1,
        byte_length: 4096 * 768,
        owner: None,
        retained: true,
    }
}

#[test]
fn native_resolution_requires_isolation_and_real_bar_length() {
    let mut fingerprint = nvidia();

    let resolver = GpuPortabilityResolver::new(17, &Judge).ok().unwrap();
    assert!(resolver
        .prove(DriverStrategy::HermesNvidia, &fingerprint)
        .unwrap()
        .accepted());

    fingerprint.topology_flags = 0;
    assert!(matches!(
        resolver.prove(DriverStrategy::HermesNvidia, &fingerprint),
        Err(PortabilityFault::Rejected(_))
    ));
}

#[test]
fn firmware_surface_accepts_synthetic_fingerprint() {
    let mut fingerprint = GpuFingerprint::empty();
    fingerprint.firmware_framebuffer = framebuffer();
    fingerprint.topology_flags = TOPOLOGY_FIRMWARE_FRAMEBUFFER;
    fingerprint.evidence_root = 11;

    let resolver = GpuPortabilityResolver::new(19, &Judge).ok().unwrap();
    assert!(resolver
        .prove(DriverStrategy::FirmwareFramebuffer, &fingerprint)
        .unwrap()
        .accepted());
}

#[test]
fn the_highest_score_is_selected() {
    let mut fingerprint = nvidia();
    fingerprint.firmware_framebuffer = framebuffer();
    fingerprint.topology_flags |= TOPOLOGY_FIRMWARE_FRAMEBUFFER;
    let resolver = GpuPortabilityResolver::new(17, &Judge).ok().unwrap();
    let selected = resolver
        .select(
            &[
                DriverStrategy::FirmwareFramebuffer,
                DriverStrategy::HermesNvidia,
            ],
            &fingerprint,
        )
        .unwrap();
    assert_eq!(selected.strategy, DriverStrategy::HermesNvidia);
    assert_eq!(
        resolver.prove(DriverStrategy::Quarantine, &fingerprint),
        Err(PortabilityFault::UnsupportedStrategy)
    );
}

#[test]
fn manifests_and_evidence_carry_the_device() {
    let manifest = manifest_for(DriverStrategy::HermesNvidia).unwrap();
    assert_eq!(manifest.vendor_id, VENDOR_NVIDIA);
    assert_eq!(
        manifest.required_topology & GPU_TOPOLOGY_IOMMU_ISOLATED,
        GPU_TOPOLOGY_IOMMU_ISOLATED
    );
    assert!(manifest_for(DriverStrategy::Quarantine).is_none());
    assert_eq!(bar_address(0x8000_0004, 1, BAR_PRESENT | BAR_64BIT), 0x1_8000_0000);
    let evidence = portable_evidence(&nvidia());
    assert_eq!(evidence.bars[0].physical_address, 0x8000_0000);
    assert_eq!(evidence.bars[0].length, 16 * 1024 * 1024);
    assert_eq!(evidence.identity.vendor_id, VENDOR_NVIDIA);
}
