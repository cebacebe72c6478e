//! Verified driver-discovery core: device census, driver selection, xHCI
//! bootstrap decoding, display retention and DMA lease accounting.
//!
//! Every module is pure bookkeeping over plain values. Hardware access is
//! reached through small traits; a recorder keeps the ghost transcript of what
//! was asked and answered, so that contracts can speak of it.

pub mod bits;
pub mod device_census;
pub mod drivernet;
pub mod firmware_display;
pub mod gpu_abi;
pub mod gpu_portability;
pub mod hermes_abi;
pub mod hermes_dma;
pub mod hermes_gsp;
pub mod hermes_platform;
pub mod hermes_services;
pub mod hermes_trace;
pub mod hermes_transport;
pub mod laws;
pub mod mmio;
pub mod net;
pub mod pci;
pub mod seal;
pub mod status;
pub mod trace;
pub mod xhci;
pub mod xhci_dma;
pub mod xhci_iommu;
pub mod xhci_ports;
pub mod xhci_protocol;
