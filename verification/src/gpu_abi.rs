//! The portable description of graphics devices and of what drivers ask of them.

use vstd::prelude::*;

verus! {

pub const GPU_PORTABLE_ABI_VERSION: u32 = 1;

pub const GPU_BAR_COUNT: usize = 6;

pub const GPU_MANIFEST_BYTES: u32 = 152;

pub const GPU_EVIDENCE_BYTES: u32 = 272;

pub const GPU_BAR_PRESENT: u32 = 1;

pub const GPU_BAR_IO: u32 = 2;

pub const GPU_BAR_64BIT: u32 = 4;

pub const GPU_BAR_PREFETCHABLE: u32 = 8;

pub const GPU_TOPOLOGY_BOOT_DISPLAY: u64 = 1;

pub const GPU_TOPOLOGY_IOMMU_PRESENT: u64 = 2;

pub const GPU_TOPOLOGY_IOMMU_ISOLATED: u64 = 4;

pub const GPU_TOPOLOGY_FIRMWARE_SURFACE: u64 = 8;

pub const GPU_TOPOLOGY_VIRTUAL_MACHINE: u64 = 0x10;

pub const GPU_TOPOLOGY_HOTPLUG: u64 = 0x20;

pub const GPU_TOPOLOGY_INVENTORY_COMPLETE: u64 = 0x40;

pub const GPU_FIRMWARE_REQUIRED: u32 = 1;

pub const GPU_FIRMWARE_PRESERVE_BOOT_SURFACE: u32 = 2;

#[derive(Clone, Copy, Debug, PartialEq, Eq, Structural)]
pub enum GpuDriverClass {
    Native,
    Paravirtual,
    FirmwareSurface,
}

/// What a driver asks of a device.
#[derive(Clone, Copy, Debug, PartialEq, Eq)]
pub struct GpuCompatibilityManifest {
    pub abi_version: u32,
    pub struct_size: u32,
    pub driver_id: u64,
    pub driver_class: GpuDriverClass,
    pub vendor_id: u16,
    pub device_id_mask: u16,
    pub device_id_value: u16,
    pub class_mask: u8,
    pub class_value: u8,
    pub subclass_mask: u8,
    pub subclass_value: u8,
    pub revision_minimum: u8,
    pub revision_maximum: u8,
    pub architecture_mask: u32,
    pub architecture_value: u32,
    pub required_topology: u64,
    pub forbidden_topology: u64,
    pub required_features: u64,
    pub optional_features: u64,
    pub required_bar_mask: u8,
    pub minimum_bar_lengths: [u64; 6],
    pub firmware_policy: u32,
    pub priority: u16,
}

#[derive(Clone, Copy, Debug, PartialEq, Eq, Structural)]
pub struct GpuPciIdentity {
    pub segment: u16,
    pub bus: u8,
    pub slot: u8,
    pub function: u8,
    pub revision: u8,
    pub vendor_id: u16,
    pub device_id: u16,
    pub subsystem_vendor_id: u16,
    pub subsystem_device_id: u16,
    pub class_code: u8,
    pub subclass: u8,
    pub programming_interface: u8,
}

#[derive(Clone, Copy, Debug, PartialEq, Eq, Structural)]
pub struct GpuBarEvidence {
    pub physical_address: u64,
    pub length: u64,
    pub flags: u32,
}

impl GpuBarEvidence {
    #[verifier::allow_in_spec]
    pub fn empty() -> GpuBarEvidence
        returns
            (GpuBarEvidence { physical_address: 0, length: 0, flags: 0 }),
    {
        GpuBarEvidence { physical_address: 0, length: 0, flags: 0 }
    }
}

#[derive(Clone, Copy, Debug, PartialEq, Eq, Structural)]
pub struct GpuFirmwareSurface {
    pub physical_address: u64,
    pub byte_length: u64,
    pub width: u32,
    pub height: u32,
    pub pitch: u32,
    pub format: u32,
    pub flags: u32,
}

impl GpuFirmwareSurface {
    /// No surface.
    #[verifier::allow_in_spec]
    pub fn none() -> GpuFirmwareSurface
        returns
            (GpuFirmwareSurface {
                physical_address: 0,
                byte_length: 0,
                width: 0,
                height: 0,
                pitch: 0,
                format: 0,
                flags: 0,
            }),
    {
        GpuFirmwareSurface {
            physical_address: 0,
            byte_length: 0,
            width: 0,
            height: 0,
            pitch: 0,
            format: 0,
            flags: 0,
        }
    }
}

/// What is known of a device.
#[derive(Clone, Copy, Debug, PartialEq, Eq)]
pub struct GpuDeviceEvidence {
    pub abi_version: u32,
    pub struct_size: u32,
    pub identity: GpuPciIdentity,
    pub bars: [GpuBarEvidence; 6],
    pub capability_flags: u64,
    pub topology_flags: u64,
    pub observed_features: u64,
    pub architecture_hint: u32,
    pub bootrom_revision: u32,
    pub firmware_surface: GpuFirmwareSurface,
    pub evidence_root: u64,
}

/// How a manifest and a device's evidence agreed.
#[derive(Clone, Copy, Debug, PartialEq, Eq, Structural)]
pub struct GpuCompatibilityProof {
    pub accepted: bool,
    pub score_q16: u32,
    pub proof_root: u64,
}

impl GpuCompatibilityProof {
    /// No proof.
    #[verifier::allow_in_spec]
    pub fn empty() -> GpuCompatibilityProof
        returns
            (GpuCompatibilityProof { accepted: false, score_q16: 0, proof_root: 0 }),
    {
        GpuCompatibilityProof { accepted: false, score_q16: 0, proof_root: 0 }
    }

    #[verifier::allow_in_spec]
    pub fn accepted(self) -> bool
        returns
            self.accepted,
    {
        self.accepted
    }
}

/// Whoever judges manifests and evidence.
pub trait GpuCompatibility {
    fn manifest_valid(&self, manifest: &GpuCompatibilityManifest) -> bool;

    fn evidence_valid(&self, evidence: &GpuDeviceEvidence) -> bool;

    fn usable_mmio(&self, bar: &GpuBarEvidence) -> bool;

    fn evaluate(
        &self,
        manifest: &GpuCompatibilityManifest,
        evidence: &GpuDeviceEvidence,
        secret: u64,
    ) -> GpuCompatibilityProof;
}

} // verus!
