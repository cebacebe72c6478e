//! What the library promises as a whole, stated in plain arithmetic and over
//! transcripts, away from the definitions that the contracts are written in.

pub mod attempts;
pub mod census;
pub mod discovery;
pub mod dispatch;
pub mod display;
pub mod fingerprint;
pub mod gsp;
pub mod ignition;
pub mod memory;
pub mod model;
pub mod platform;
pub mod portable;
pub mod seal;
pub mod sealed;
pub mod shims;
pub mod surveys;
pub mod transport;
pub mod usb;
pub mod xhci;
