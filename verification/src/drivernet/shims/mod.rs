//! The built-in driver descriptors.

pub mod amd_display;
pub mod amd_kms;
pub mod firmware_fb;
pub mod hermes_nvidia;
pub mod intel_kms;
pub mod quarantine;
pub mod vesa_fb;
pub mod virtio_gpu;
pub mod virtual_svga;
