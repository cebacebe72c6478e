//! The last resort of any machine: a linear framebuffer.

use crate::drivernet::fingerprint::GpuFingerprint;
use vstd::prelude::*;

verus! {

/// Claims any function, so that there is always a console.
pub fn arm(fp: &GpuFingerprint) -> (result: Result<(), &'static str>)
    ensures
        result is Ok,
{
    Ok(())
}

} // verus!
