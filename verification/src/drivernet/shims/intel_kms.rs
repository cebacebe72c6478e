//! The claim of an Intel display function for mode setting.

use crate::drivernet::fingerprint::{GpuFingerprint, VENDOR_INTEL};
use vstd::prelude::*;

verus! {

/// Claims a function of the vendor.
pub fn arm(fp: &GpuFingerprint) -> (result: Result<(), &'static str>)
    ensures
        match result {
            Ok(_) => fp.vendor_id == VENDOR_INTEL,
            Err(reason) => fp.vendor_id != VENDOR_INTEL && reason@ == "not-intel"@,
        },
{
    if fp.vendor_id != VENDOR_INTEL {
        return Err("not-intel");
    }
    Ok(())
}

} // verus!
