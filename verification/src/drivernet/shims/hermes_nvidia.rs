//! The claim of an NVIDIA display function for Hermes.
//!
//! A claim only tests the identity of the device. Binding, staging and ignition wait
//! for a platform and firmware.

use crate::drivernet::fingerprint::{GpuFingerprint, PCI_CLASS_DISPLAY, VENDOR_NVIDIA};
use crate::hermes_gsp::fingerprint_identity;
use vstd::prelude::*;

verus! {

/// Claims a display function of the vendor.
pub fn arm(fp: &GpuFingerprint) -> (result: Result<(), &'static str>)
    ensures
        match result {
            Ok(()) => fp.vendor_id == VENDOR_NVIDIA && fp.class_code == PCI_CLASS_DISPLAY,
            Err(reason) => if fp.vendor_id != VENDOR_NVIDIA {
                reason@ == "not-nvidia"@
            } else {
                fp.class_code != PCI_CLASS_DISPLAY && reason@ == "not-display"@
            },
        },
{
    if fp.vendor_id != VENDOR_NVIDIA {
        return Err("not-nvidia");
    }
    if fp.class_code != PCI_CLASS_DISPLAY {
        return Err("not-display");
    }
    let identity = fingerprint_identity(fp);
    if identity.vendor_id != crate::hermes_gsp::NVIDIA_VENDOR_ID {
        return Err("hermes-reject-vendor");
    }
    if identity.class_code != crate::hermes_gsp::PCI_CLASS_DISPLAY {
        return Err("hermes-reject-class");
    }
    Ok(())
}

} // verus!
