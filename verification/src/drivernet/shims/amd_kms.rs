//! The claim of an AMD display function for mode setting.

use crate::drivernet::fingerprint::{GpuFingerprint, VENDOR_AMD};
use vstd::prelude::*;

verus! {

/// Claims a function of the vendor.
pub fn arm(fp: &GpuFingerprint) -> (result: Result<(), &'static str>)
    ensures
        match result {
            Ok(_) => fp.vendor_id == VENDOR_AMD,
            Err(reason) => fp.vendor_id != VENDOR_AMD && reason@ == "not-amd"@,
        },
{
    if fp.vendor_id != VENDOR_AMD {
        return Err("not-amd");
    }
    Ok(())
}

} // verus!
