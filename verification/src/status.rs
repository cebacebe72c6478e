//! The status codes that drivers and services exchange.

use vstd::prelude::*;

verus! {

pub const STATUS_OK: i32 = 0;

pub const STATUS_INVALID_ARGUMENT: i32 = -1;

pub const STATUS_NOT_FOUND: i32 = -2;

pub const STATUS_BUSY: i32 = -3;

pub const STATUS_IO_ERROR: i32 = -4;

pub const STATUS_UNSUPPORTED: i32 = -5;

pub const STATUS_ABI_MISMATCH: i32 = -6;

} // verus!
